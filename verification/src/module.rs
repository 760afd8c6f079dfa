//! In-memory model of a stack-machine bytecode module.
//!
//! A module is a collection of typed sections; only the sections that the
//! packer reads or rewrites are modelled: Type, Import, Function, Export,
//! Code and Data.  A section that the module lacks is `None`.  Imported
//! functions occupy the low range `[0, I)` of the combined function index
//! space, locally defined functions the range `[I, I + L)`, where `I` is the
//! number of function imports and `L` the Function section's length.

use vstd::prelude::*;

verus! {

/// The four primitive numeric kinds of the stack machine.
#[derive(Clone, Copy, Debug, PartialEq, Eq, Structural)]
pub enum ValueType {
    I32,
    I64,
    F32,
    F64,
}

/// The target of an export entry: an internal kind together with an index
/// into the corresponding index space.
#[derive(Clone, Copy, Debug, PartialEq, Eq, Structural)]
pub enum Internal {
    Function(u32),
    Table(u32),
    Memory(u32),
    Global(u32),
}

/// The kind of an import.  A function import carries its signature's index
/// in the Type section; a memory import carries its limits.
#[derive(Clone, Copy, Debug, PartialEq, Eq, Structural)]
pub enum ImportKind {
    Function(u32),
    Table,
    Memory(u32, Option<u32>),
    Global,
}

/// A stack-machine instruction.  Only the instructions that the packer
/// emits or inspects are modelled.
#[derive(Clone, Copy, Debug, PartialEq, Eq, Structural)]
pub enum Opcode {
    GetLocal(u32),
    I32Const(i32),
    /// Store of a 32-bit word: alignment hint and constant byte offset.
    I32Store(u32, u32),
    Call(u32),
    End,
}

/// A run of locals of one value type at the start of a function body.
#[derive(Clone, Copy, Debug, PartialEq, Eq, Structural)]
pub struct LocalEntry {
    pub count: u32,
    pub value_type: ValueType,
}

/// A function signature: parameter types and an optional result type.
#[derive(Debug)]
pub struct FunctionType {
    pub params: Vec<ValueType>,
    pub result: Option<ValueType>,
}

#[verifier::ext_equal]
pub struct FunctionTypeV {
    pub params: Seq<ValueType>,
    pub result: Option<ValueType>,
}

impl View for FunctionType {
    type V = FunctionTypeV;

    open spec fn view(&self) -> FunctionTypeV {
        FunctionTypeV { params: self.params@, result: self.result }
    }
}

/// An import: a `(module, field, kind)` triple.
#[derive(Debug)]
pub struct ImportEntry {
    pub module: String,
    pub field: String,
    pub kind: ImportKind,
}

#[verifier::ext_equal]
pub struct ImportEntryV {
    pub module: Seq<char>,
    pub field: Seq<char>,
    pub kind: ImportKind,
}

impl View for ImportEntry {
    type V = ImportEntryV;

    open spec fn view(&self) -> ImportEntryV {
        ImportEntryV { module: self.module@, field: self.field@, kind: self.kind }
    }
}

/// A named export pointing at an internal kind and index.
#[derive(Debug)]
pub struct ExportEntry {
    pub field: String,
    pub internal: Internal,
}

#[verifier::ext_equal]
pub struct ExportEntryV {
    pub field: Seq<char>,
    pub internal: Internal,
}

impl View for ExportEntry {
    type V = ExportEntryV;

    open spec fn view(&self) -> ExportEntryV {
        ExportEntryV { field: self.field@, internal: self.internal }
    }
}

impl Clone for ExportEntry {
    fn clone(&self) -> (r: Self)
        ensures
            r@ == self@,
    {
        ExportEntry { field: self.field.clone(), internal: self.internal }
    }
}

/// The body of a locally defined function.
#[derive(Debug)]
pub struct FuncBody {
    pub locals: Vec<LocalEntry>,
    pub code: Vec<Opcode>,
}

#[verifier::ext_equal]
pub struct FuncBodyV {
    pub locals: Seq<LocalEntry>,
    pub code: Seq<Opcode>,
}

impl View for FuncBody {
    type V = FuncBodyV;

    open spec fn view(&self) -> FuncBodyV {
        FuncBodyV { locals: self.locals@, code: self.code@ }
    }
}

/// A data segment: a linear memory index, an offset expression (an
/// instruction list terminated by `End`, typically `[I32Const(k), End]`)
/// and the bytes placed there.
#[derive(Debug)]
pub struct DataSegment {
    pub index: u32,
    pub offset: Vec<Opcode>,
    pub value: Vec<u8>,
}

#[verifier::ext_equal]
pub struct DataSegmentV {
    pub index: u32,
    pub offset: Seq<Opcode>,
    pub value: Seq<u8>,
}

impl View for DataSegment {
    type V = DataSegmentV;

    open spec fn view(&self) -> DataSegmentV {
        DataSegmentV { index: self.index, offset: self.offset@, value: self.value@ }
    }
}

/// A module: the sections the packer works with, each present or absent.
#[derive(Debug)]
pub struct Module {
    /// Type section: the indexed list of function signatures.
    pub types: Option<Vec<FunctionType>>,
    /// Import section.
    pub imports: Option<Vec<ImportEntry>>,
    /// Function section: for each locally defined function, the index of
    /// its signature in the Type section.
    pub functions: Option<Vec<u32>>,
    /// Export section.
    pub exports: Option<Vec<ExportEntry>>,
    /// Code section: the bodies of the locally defined functions.
    pub code: Option<Vec<FuncBody>>,
    /// Data section.
    pub data: Option<Vec<DataSegment>>,
}

#[verifier::ext_equal]
pub struct ModuleV {
    pub types: Option<Seq<FunctionTypeV>>,
    pub imports: Option<Seq<ImportEntryV>>,
    pub functions: Option<Seq<u32>>,
    pub exports: Option<Seq<ExportEntryV>>,
    pub code: Option<Seq<FuncBodyV>>,
    pub data: Option<Seq<DataSegmentV>>,
}

impl View for Module {
    type V = ModuleV;

    open spec fn view(&self) -> ModuleV {
        ModuleV {
            types: match self.types {
                None => None,
                Some(v) => Some(v@.map_values(|t: FunctionType| t@)),
            },
            imports: match self.imports {
                None => None,
                Some(v) => Some(v@.map_values(|t: ImportEntry| t@)),
            },
            functions: match self.functions {
                None => None,
                Some(v) => Some(v@),
            },
            exports: match self.exports {
                None => None,
                Some(v) => Some(v@.map_values(|t: ExportEntry| t@)),
            },
            code: match self.code {
                None => None,
                Some(v) => Some(v@.map_values(|t: FuncBody| t@)),
            },
            data: match self.data {
                None => None,
                Some(v) => Some(v@.map_values(|t: DataSegment| t@)),
            },
        }
    }
}

/// The sequence a section holds, or the empty sequence if the section is
/// absent.
pub open spec fn seq_or_empty<A>(o: Option<Seq<A>>) -> Seq<A> {
    match o {
        None => Seq::empty(),
        Some(s) => s,
    }
}

/// How many of the imports are function imports.
pub open spec fn func_imports_of(s: Seq<ImportEntryV>) -> int
    decreases s.len(),
{
    if s.len() == 0 {
        0
    } else {
        func_imports_of(s.drop_last()) + if s.last().kind is Function {
            1int
        } else {
            0int
        }
    }
}

/// The number of imported functions: the low end of the module's combined
/// function index space.
pub open spec fn import_func_count(m: ModuleV) -> int {
    func_imports_of(seq_or_empty(m.imports))
}

/// The Function section's length, or zero if the section is absent.
pub open spec fn local_func_count(m: ModuleV) -> int {
    seq_or_empty(m.functions).len() as int
}

/// The signature of a constructor: exactly one `i32` parameter and no
/// result.
pub open spec fn is_i32_unit_sig(t: FunctionTypeV) -> bool {
    &&& t.params.len() == 1
    &&& t.params[0] == ValueType::I32
    &&& t.result is None
}

proof fn lemma_func_imports_of_take(s: Seq<ImportEntryV>, i: int)
    requires
        0 <= i < s.len(),
    ensures
        func_imports_of(s.take(i + 1)) == func_imports_of(s.take(i)) + if s[i].kind is Function {
            1int
        } else {
            0int
        },
{
    assert(s.take(i + 1).drop_last() =~= s.take(i));
    assert(s.take(i + 1).last() == s[i]);
}

impl Module {
    /// Counts the function imports: the number of combined function indices
    /// taken by imports.
    pub fn import_function_count(&self) -> (r: usize)
        ensures
            r == import_func_count(self@),
    {
        match &self.imports {
            None => 0,
            Some(entries) => {
                let n = entries.len();
                let mut count: usize = 0;
                let mut i: usize = 0;
                proof {
                    assert(seq_or_empty(self@.imports) =~= entries@.map_values(
                        |t: ImportEntry| t@,
                    ));
                }
                while i < n
                    invariant
                        n == entries@.len(),
                        0 <= i <= n,
                        count <= i,
                        count == func_imports_of(
                            entries@.map_values(|t: ImportEntry| t@).take(i as int),
                        ),
                    decreases n - i,
                {
                    proof {
                        lemma_func_imports_of_take(
                            entries@.map_values(|t: ImportEntry| t@),
                            i as int,
                        );
                    }
                    match entries[i].kind {
                        ImportKind::Function(_) => {
                            count = count + 1;
                        },
                        _ => {},
                    }
                    i = i + 1;
                }
                proof {
                    assert(entries@.map_values(|t: ImportEntry| t@).take(n as int)
                        =~= entries@.map_values(|t: ImportEntry| t@));
                }
                count
            },
        }
    }
}

} // verus!
