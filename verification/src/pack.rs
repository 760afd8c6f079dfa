//! The packer: rewrites a deployer module so that its `_call` runs the
//! original constructor and hands the serialized runtime module to the
//! host.
//!
//! Given the runtime module's bytes and a deployer that exports a
//! constructor under the name `_create`, the packer appends the bytes as a
//! new data segment, synthesizes a trampoline function that calls the
//! constructor and records the segment's offset and length in the call
//! descriptor, and retargets the `_create` export at the trampoline under
//! the name `_call`.

use vstd::prelude::*;
use crate::builder::{push_function, with_function};
use crate::module::{
    import_func_count, is_i32_unit_sig, local_func_count, seq_or_empty, DataSegment, DataSegmentV,
    ExportEntry, ExportEntryV, FuncBody, FuncBodyV, FunctionType, FunctionTypeV, Internal, Module,
    ModuleV, Opcode, ValueType,
};

verus! {

/// A structural defect of the deployer module that stops the packer.
#[derive(Clone, Copy, Debug, PartialEq, Eq, Structural)]
pub enum Error {
    /// A function-index or type-index lookup fell out of bounds.
    MalformedModule,
    /// The Type section is absent though the constructor references it.
    NoTypeSection,
    /// The deployer has no Export section.
    NoExportSection,
    /// The Function section is absent though the constructor needs it.
    NoCodeSection,
    /// The constructor's signature is not `(i32) -> ()`.
    InvalidCreateSignature,
    /// No export is named `_create`.
    NoCreateSymbol,
    /// The `_create` export is not of function kind.
    InvalidCreateMember,
}

/// The export name under which a deployer advertises its constructor.
pub open spec fn create_name() -> Seq<char> {
    "_create"@
}

/// The export name under which the host invokes a module.
pub open spec fn call_name() -> Seq<char> {
    "_call"@
}

/// The position of the first export named `name`, or `-1` if there is
/// none.
pub open spec fn first_named(s: Seq<ExportEntryV>, name: Seq<char>) -> int
    decreases s.len(),
{
    if s.len() == 0 {
        -1
    } else if s[0].field == name {
        0
    } else {
        let r = first_named(s.drop_first(), name);
        if r == -1 {
            -1
        } else {
            r + 1
        }
    }
}

pub proof fn lemma_first_named_absent(s: Seq<ExportEntryV>, name: Seq<char>)
    requires
        forall|j: int| 0 <= j < s.len() ==> s[j].field != name,
    ensures
        first_named(s, name) == -1,
    decreases s.len(),
{
    if s.len() > 0 {
        lemma_first_named_absent(s.drop_first(), name);
    }
}

pub proof fn lemma_first_named_found(s: Seq<ExportEntryV>, name: Seq<char>, i: int)
    requires
        0 <= i < s.len(),
        s[i].field == name,
        forall|j: int| 0 <= j < i ==> s[j].field != name,
    ensures
        first_named(s, name) == i,
    decreases i,
{
    if i > 0 {
        lemma_first_named_found(s.drop_first(), name, i - 1);
    }
}

/// What an export's target must be for `_create`: a function index.
pub open spec fn function_target(i: Internal) -> Option<u32> {
    match i {
        Internal::Function(x) => Some(x),
        _ => None,
    }
}

/// Resolving the constructor: the combined function index of a valid
/// `_create` export, or the error that the deployer's structure forces.
/// The checks happen in the order the packer makes them, so exactly one
/// error is determined.
pub open spec fn create_resolution(m: ModuleV) -> Result<u32, Error> {
    match m.exports {
        None => Err(Error::NoExportSection),
        Some(exps) => {
            let ci = first_named(exps, create_name());
            if ci < 0 {
                Err(Error::NoCreateSymbol)
            } else {
                match function_target(exps[ci].internal) {
                    None => Err(Error::InvalidCreateMember),
                    Some(combined) => match m.functions {
                        None => Err(Error::NoCodeSection),
                        Some(funcs) => {
                            let ifc = import_func_count(m);
                            if combined < ifc || combined - ifc >= funcs.len() {
                                Err(Error::MalformedModule)
                            } else {
                                let type_ref = funcs[combined - ifc];
                                match m.types {
                                    None => Err(Error::NoTypeSection),
                                    Some(types) => {
                                        if type_ref >= types.len() {
                                            Err(Error::MalformedModule)
                                        } else if !is_i32_unit_sig(types[type_ref as int]) {
                                            Err(Error::InvalidCreateSignature)
                                        } else {
                                            Ok(combined)
                                        }
                                    },
                                }
                            }
                        },
                    },
                }
            }
        },
    }
}

/// The combined function index the resolution picked; meaningful when the
/// resolution succeeds.
pub open spec fn resolved_ctor(m: ModuleV) -> u32 {
    match create_resolution(m) {
        Ok(c) => c,
        Err(_) => 0,
    }
}

/// The error the packer returns for `m`, if any.
pub open spec fn pack_error(m: ModuleV) -> Option<Error> {
    match create_resolution(m) {
        Err(e) => Some(e),
        Ok(_) => None,
    }
}

/// The constant a data segment's offset expression starts with, if it
/// starts with one.
pub open spec fn offset_const(ops: Seq<Opcode>) -> Option<i32> {
    if ops.len() > 0 {
        match ops[0] {
            Opcode::I32Const(k) => Some(k),
            _ => None,
        }
    } else {
        None
    }
}

/// Where the runtime bytes go: past the last existing data segment,
/// rounded up with at least four bytes of padding to the next four-byte
/// boundary; zero if there is no segment or its offset expression does not
/// start with a constant.
pub open spec fn new_segment_offset(data: Option<Seq<DataSegmentV>>) -> int {
    let segs = seq_or_empty(data);
    if segs.len() == 0 {
        0
    } else {
        match offset_const(segs.last().offset) {
            Some(k) => {
                let l = segs.last().value.len() as int;
                k + (l + 4) - l % 4
            },
            None => 0,
        }
    }
}

/// The linear memory the new segment goes to: the one of the last existing
/// segment, or memory zero.
pub open spec fn new_segment_index(data: Option<Seq<DataSegmentV>>) -> u32 {
    let segs = seq_or_empty(data);
    if segs.len() == 0 {
        0
    } else {
        segs.last().index
    }
}

/// The machine bounds the pack computation needs: the runtime bytes'
/// length and the new segment's offset must be expressible as `i32`, and
/// the new function and type indices as `u32`.
pub open spec fn pack_fits(raw: Seq<u8>, m: ModuleV) -> bool {
    &&& raw.len() <= i32::MAX
    &&& import_func_count(m) + local_func_count(m) <= u32::MAX
    &&& seq_or_empty(m.types).len() <= u32::MAX
    &&& {
        let segs = seq_or_empty(m.data);
        segs.len() == 0 || (match offset_const(segs.last().offset) {
            Some(k) => {
                let l = segs.last().value.len() as int;
                l <= i32::MAX && k + (l + 4) - l % 4 <= i32::MAX
            },
            None => true,
        })
    }
}

/// The module with the runtime bytes appended as a data segment at the
/// chosen offset.
pub open spec fn with_data_segment(m: ModuleV, raw: Seq<u8>) -> ModuleV {
    ModuleV {
        types: m.types,
        imports: m.imports,
        functions: m.functions,
        exports: m.exports,
        code: m.code,
        data: Some(
            seq_or_empty(m.data).push(
                DataSegmentV {
                    index: new_segment_index(m.data),
                    offset: seq![
                        Opcode::I32Const(new_segment_offset(m.data) as i32),
                        Opcode::End,
                    ],
                    value: raw,
                },
            ),
        ),
    }
}

/// The trampoline's signature: `(i32) -> ()`.
pub open spec fn trampoline_sig() -> FunctionTypeV {
    FunctionTypeV { params: seq![ValueType::I32], result: None }
}

/// The trampoline's instructions: forward the descriptor pointer to the
/// constructor, then store the new segment's offset at descriptor byte 8
/// and the runtime bytes' length at descriptor byte 12.
pub open spec fn trampoline_code(ctor: u32, addr: i32, len: i32) -> Seq<Opcode> {
    seq![
        Opcode::GetLocal(0),
        Opcode::Call(ctor),
        Opcode::GetLocal(0),
        Opcode::I32Const(addr),
        Opcode::I32Store(0, 8),
        Opcode::GetLocal(0),
        Opcode::I32Const(len),
        Opcode::I32Store(0, 12),
        Opcode::End,
    ]
}

/// The trampoline's body: no locals, just the code.
pub open spec fn trampoline_body(ctor: u32, addr: i32, len: i32) -> FuncBodyV {
    FuncBodyV { locals: Seq::empty(), code: trampoline_code(ctor, addr, len) }
}

/// An export entry after rewiring: every entry named `_create` is renamed
/// to `_call` and retargeted at function index `idx`; any other entry is
/// untouched.
pub open spec fn rewire_export(e: ExportEntryV, idx: u32) -> ExportEntryV {
    if e.field == create_name() {
        ExportEntryV { field: call_name(), internal: Internal::Function(idx) }
    } else {
        e
    }
}

/// The module with its export table rewired at `idx`.
pub open spec fn with_exports_rewired(m: ModuleV, idx: u32) -> ModuleV {
    ModuleV {
        types: m.types,
        imports: m.imports,
        functions: m.functions,
        exports: match m.exports {
            None => None,
            Some(s) => Some(s.map_values(|e: ExportEntryV| rewire_export(e, idx))),
        },
        code: m.code,
        data: m.data,
    }
}

/// The packed deployer: the runtime bytes embedded as a data segment, the
/// trampoline appended as a new function, and the `_create` export turned
/// into a `_call` export pointing at it.  Meaningful when
/// `create_resolution(m)` succeeds.
pub open spec fn packed_module(raw: Seq<u8>, m: ModuleV) -> ModuleV {
    match create_resolution(m) {
        Err(_) => m,
        Ok(ctor) => {
            let addr = new_segment_offset(m.data) as i32;
            let len = raw.len() as i32;
            let idx = (import_func_count(m) + local_func_count(m)) as u32;
            with_exports_rewired(
                with_function(
                    with_data_segment(m, raw),
                    trampoline_sig(),
                    trampoline_body(ctor, addr, len),
                ),
                idx,
            )
        },
    }
}

/// How many exports carry the name `name`.
pub open spec fn count_named(s: Seq<ExportEntryV>, name: Seq<char>) -> int
    decreases s.len(),
{
    if s.len() == 0 {
        0
    } else {
        count_named(s.drop_last(), name) + if s.last().field == name {
            1int
        } else {
            0int
        }
    }
}

proof fn lemma_count_named_nonneg(s: Seq<ExportEntryV>, name: Seq<char>)
    ensures
        count_named(s, name) >= 0,
    decreases s.len(),
{
    if s.len() > 0 {
        lemma_count_named_nonneg(s.drop_last(), name);
    }
}

proof fn lemma_count_named_zero(s: Seq<ExportEntryV>, name: Seq<char>)
    requires
        count_named(s, name) == 0,
    ensures
        forall|j: int| 0 <= j < s.len() ==> s[j].field != name,
    decreases s.len(),
{
    if s.len() > 0 {
        lemma_count_named_nonneg(s.drop_last(), name);
        lemma_count_named_zero(s.drop_last(), name);
        assert(forall|j: int| 0 <= j < s.len() - 1 ==> s[j] == s.drop_last()[j]);
    }
}

proof fn lemma_rewire_counts(s: Seq<ExportEntryV>, idx: u32)
    ensures
        count_named(s.map_values(|e: ExportEntryV| rewire_export(e, idx)), call_name())
            == count_named(s, call_name()) + count_named(s, create_name()),
        count_named(s.map_values(|e: ExportEntryV| rewire_export(e, idx)), create_name()) == 0,
    decreases s.len(),
{
    reveal_strlit("_call");
    reveal_strlit("_create");
    assert(call_name().len() == 5);
    assert(create_name().len() == 7);
    assert(call_name() != create_name());
    let mapped = s.map_values(|e: ExportEntryV| rewire_export(e, idx));
    if s.len() == 0 {
    } else {
        lemma_rewire_counts(s.drop_last(), idx);
        assert(mapped.drop_last() =~= s.drop_last().map_values(
            |e: ExportEntryV| rewire_export(e, idx),
        ));
        assert(mapped.last() == rewire_export(s.last(), idx));
    }
}

/// Shape of the packed export table: a deployer with exactly one export
/// named `_create` and none named `_call` is packed into a module with
/// exactly one export named `_call` — of function kind, pointing at the
/// trampoline — and none named `_create`.
pub proof fn lemma_packed_export_shape(raw: Seq<u8>, m: ModuleV)
    requires
        pack_error(m) is None,
        count_named(seq_or_empty(m.exports), create_name()) == 1,
        count_named(seq_or_empty(m.exports), call_name()) == 0,
    ensures
        ({
            let p = packed_module(raw, m);
            let exps = seq_or_empty(p.exports);
            let idx = (import_func_count(m) + local_func_count(m)) as u32;
            &&& count_named(exps, call_name()) == 1
            &&& count_named(exps, create_name()) == 0
            &&& forall|j: int|
                0 <= j < exps.len() && exps[j].field == call_name() ==> exps[j].internal
                    == Internal::Function(idx)
        }),
{
    reveal_strlit("_call");
    reveal_strlit("_create");
    let p = packed_module(raw, m);
    let exps = seq_or_empty(p.exports);
    let idx = (import_func_count(m) + local_func_count(m)) as u32;
    let olds = seq_or_empty(m.exports);
    assert(m.exports is Some);
    assert(exps == olds.map_values(|e: ExportEntryV| rewire_export(e, idx)));
    lemma_rewire_counts(olds, idx);
    lemma_count_named_zero(olds, call_name());
    assert forall|j: int|
        0 <= j < exps.len() && exps[j].field == call_name() implies exps[j].internal
        == Internal::Function(idx) by {
        assert(exps[j] == rewire_export(olds[j], idx));
        assert(olds[j].field != call_name());
    }
}

/// The packer is a terminal stage: a packed module has no `_create`
/// export left, so packing it again fails with `NoCreateSymbol`.
pub proof fn lemma_pack_terminal(raw: Seq<u8>, m: ModuleV)
    requires
        pack_error(m) is None,
    ensures
        pack_error(packed_module(raw, m)) == Some(Error::NoCreateSymbol),
{
    let p = packed_module(raw, m);
    let idx = (import_func_count(m) + local_func_count(m)) as u32;
    let olds = seq_or_empty(m.exports);
    assert(m.exports is Some);
    let exps = olds.map_values(|e: ExportEntryV| rewire_export(e, idx));
    assert(p.exports == Some(exps));
    lemma_rewire_counts(olds, idx);
    lemma_count_named_zero(exps, create_name());
    lemma_first_named_absent(exps, create_name());
}

/// The function the packed `_call` export points at has the constructor's
/// descriptor signature `(i32) -> ()`.
pub proof fn lemma_packed_call_well_typed(raw: Seq<u8>, m: ModuleV)
    requires
        pack_error(m) is None,
        pack_fits(raw, m),
    ensures
        ({
            let p = packed_module(raw, m);
            let idx = (import_func_count(m) + local_func_count(m)) as u32;
            let local = idx - import_func_count(p);
            &&& import_func_count(p) == import_func_count(m)
            &&& 0 <= local < seq_or_empty(p.functions).len()
            &&& seq_or_empty(p.functions)[local] < seq_or_empty(p.types).len()
            &&& is_i32_unit_sig(
                seq_or_empty(p.types)[seq_or_empty(p.functions)[local] as int],
            )
        }),
{
    let p = packed_module(raw, m);
    assert(p.imports == m.imports);
    let idx = (import_func_count(m) + local_func_count(m)) as u32;
    let local = idx - import_func_count(p);
    assert(local == local_func_count(m));
    assert(seq_or_empty(p.functions)[local] == seq_or_empty(m.types).len() as u32);
    assert(seq_or_empty(p.types)[seq_or_empty(m.types).len() as int] == trampoline_sig());
}

/// Where a data segment starts, when its offset expression starts with a
/// constant.
pub open spec fn seg_start(s: DataSegmentV) -> int
    recommends
        offset_const(s.offset) is Some,
{
    match offset_const(s.offset) {
        Some(k) => k as int,
        None => 0,
    }
}

/// The first byte past a data segment.
pub open spec fn seg_end(s: DataSegmentV) -> int {
    seg_start(s) + s.value.len()
}

/// Placement of the new segment: when the last existing segment starts at
/// a four-byte-aligned constant and reaches at least as far as every other
/// constant-offset segment, the chosen offset is four-byte aligned and
/// lies strictly past the end of every existing segment.  An empty or
/// absent Data section gets offset zero.
pub proof fn lemma_new_segment_offset(data: Option<Seq<DataSegmentV>>)
    requires
        ({
            let segs = seq_or_empty(data);
            segs.len() > 0 ==> {
                &&& offset_const(segs.last().offset) is Some
                &&& seg_start(segs.last()) % 4 == 0
                &&& forall|j: int|
                    0 <= j < segs.len() ==> #[trigger] seg_end(segs[j]) <= seg_end(segs.last())
            }
        }),
    ensures
        new_segment_offset(data) % 4 == 0,
        forall|j: int|
            0 <= j < seq_or_empty(data).len() ==> new_segment_offset(data) > #[trigger] seg_end(
                seq_or_empty(data)[j],
            ),
{
    let segs = seq_or_empty(data);
    if segs.len() > 0 {
        let k = seg_start(segs.last());
        let l = segs.last().value.len() as int;
        let off = new_segment_offset(data);
        assert(off == k + (l + 4) - l % 4);
        assert(l % 4 == l - 4 * (l / 4)) by (nonlinear_arith);
        assert(0 <= l % 4 < 4) by (nonlinear_arith)
            requires
                l >= 0,
        ;
        assert((k + 4 * (l / 4) + 4) % 4 == 0) by (nonlinear_arith)
            requires
                k % 4 == 0,
        ;
        assert(off > k + l);
    }
}

/// Finds the first export whose name equals `name`.
fn find_named(entries: &Vec<ExportEntry>, name: &String) -> (r: Option<usize>)
    ensures
        match r {
            Some(i) => i < entries@.len() && i == first_named(
                entries@.map_values(|t: ExportEntry| t@),
                name@,
            ),
            None => first_named(entries@.map_values(|t: ExportEntry| t@), name@) == -1,
        },
{
    let ghost s = entries@.map_values(|t: ExportEntry| t@);
    let n = entries.len();
    let mut i: usize = 0;
    while i < n
        invariant
            n == entries@.len(),
            s == entries@.map_values(|t: ExportEntry| t@),
            0 <= i <= n,
            forall|j: int| 0 <= j < i ==> s[j].field != name@,
        decreases n - i,
    {
        if entries[i].field == *name {
            proof {
                lemma_first_named_found(s, name@, i as int);
            }
            return Some(i);
        }
        i = i + 1;
    }
    proof {
        lemma_first_named_absent(s, name@);
    }
    None
}

/// Packs the serialized runtime module `raw_module` into the deployer
/// `ctor_module`.
///
/// On success the result is exactly `packed_module`: the deployer with the
/// runtime bytes as a fresh data segment, a trampoline of signature
/// `(i32) -> ()` appended, and each `_create` export renamed to `_call`
/// and retargeted at the trampoline.  The packer fails if and only if the
/// deployer violates one of the structural preconditions, and then
/// returns the error that `pack_error` determines.  On error the deployer
/// is discarded.
pub fn pack_instance(raw_module: Vec<u8>, ctor_module: Module) -> (r: Result<Module, Error>)
    requires
        pack_error(ctor_module@) is None ==> pack_fits(raw_module@, ctor_module@),
    ensures
        r is Err <==> pack_error(ctor_module@) is Some,
        (r matches Err(e) ==> Some(e) == pack_error(ctor_module@)),
        (r matches Ok(p) ==> p@ == packed_module(raw_module@, ctor_module@)),
{
    let mut m = ctor_module;
    let ghost m0 = m@;
    let ghost raw0 = raw_module@;

    let ifc = m.import_function_count();
    let create_sym = String::from_str("_create");

    // Resolve the constructor: find the `_create` export, translate its
    // combined index into the Function section, and check the signature.
    let entries = match &m.exports {
        None => {
            return Err(Error::NoExportSection);
        },
        Some(v) => v,
    };
    let ci = match find_named(entries, &create_sym) {
        None => {
            return Err(Error::NoCreateSymbol);
        },
        Some(i) => i,
    };
    let combined = match entries[ci].internal {
        Internal::Function(x) => x,
        _ => {
            return Err(Error::InvalidCreateMember);
        },
    };
    let funcs = match &m.functions {
        None => {
            return Err(Error::NoCodeSection);
        },
        Some(v) => v,
    };
    if (combined as usize) < ifc {
        return Err(Error::MalformedModule);
    }
    let local = combined as usize - ifc;
    if local >= funcs.len() {
        return Err(Error::MalformedModule);
    }
    let type_ref = funcs[local];
    let types = match &m.types {
        None => {
            return Err(Error::NoTypeSection);
        },
        Some(v) => v,
    };
    if type_ref as usize >= types.len() {
        return Err(Error::MalformedModule);
    }
    let ctor_sig = &types[type_ref as usize];
    let sig_ok = ctor_sig.params.len() == 1 && ctor_sig.params[0] == ValueType::I32
        && ctor_sig.result.is_none();
    if !sig_ok {
        return Err(Error::InvalidCreateSignature);
    }
    proof {
        let exps = entries@.map_values(|t: ExportEntry| t@);
        assert(m0.exports == Some(exps));
        assert(exps[ci as int] == entries@[ci as int]@);
        assert(first_named(exps, create_name()) == ci);
        assert(function_target(exps[ci as int].internal) == Some(combined));
        assert(m0.functions == Some(funcs@));
        assert(import_func_count(m0) == ifc);
        assert(funcs@[combined - ifc] == type_ref);
        let types_v = types@.map_values(|t: FunctionType| t@);
        assert(m0.types == Some(types_v));
        assert(types_v[type_ref as int] == ctor_sig@);
        assert(is_i32_unit_sig(ctor_sig@));
        assert(create_resolution(m0) == Ok::<u32, Error>(combined));
        assert(pack_fits(raw0, m0));
    }

    // Choose the new data segment's place: past the last existing segment,
    // padded to a four-byte boundary; fall back to offset zero when the
    // last segment's offset expression does not start with a constant.
    let mut seg_index: u32 = 0;
    let mut offset: i32 = 0;
    match &m.data {
        None => {},
        Some(segs) => {
            if segs.len() > 0 {
                let last = &segs[segs.len() - 1];
                seg_index = last.index;
                if last.offset.len() > 0 {
                    match last.offset[0] {
                        Opcode::I32Const(k) => {
                            proof {
                                assert(seq_or_empty(m0.data).last() == last@);
                                assert(offset_const(last@.offset) == Some(k));
                            }
                            let l = last.value.len();
                            let off64: i64 = (k as i64) + (l as i64) + 4 - (l as i64) % 4;
                            proof {
                                assert(i32::MIN <= off64 <= i32::MAX);
                            }
                            offset = off64 as i32;
                        },
                        _ => {},
                    }
                }
            }
        },
    }
    proof {
        assert(seg_index == new_segment_index(m0.data));
        assert(offset == new_segment_offset(m0.data) as i32);
    }

    let raw_len = raw_module.len() as i32;
    let new_seg = DataSegment {
        index: seg_index,
        offset: vec![Opcode::I32Const(offset), Opcode::End],
        value: raw_module,
    };
    let mut segs: Vec<DataSegment> = match m.data.take() {
        Some(v) => v,
        None => Vec::new(),
    };
    segs.push(new_seg);
    m.data = Some(segs);
    proof {
        assert(m@ =~~= with_data_segment(m0, raw0));
    }

    // Synthesize the trampoline.
    let sig = FunctionType { params: vec![ValueType::I32], result: None };
    let body = FuncBody {
        locals: Vec::new(),
        code: vec![
            Opcode::GetLocal(0),
            Opcode::Call(combined),
            Opcode::GetLocal(0),
            Opcode::I32Const(offset),
            Opcode::I32Store(0, 8),
            Opcode::GetLocal(0),
            Opcode::I32Const(raw_len),
            Opcode::I32Store(0, 12),
            Opcode::End,
        ],
    };
    proof {
        assert(sig@ =~~= trampoline_sig());
        assert(body@ =~~= trampoline_body(combined, offset, raw_len));
    }
    let new_idx = push_function(&mut m, sig, body);
    let ghost after_build = m@;

    // Rewire the export table: every `_create` export becomes the `_call`
    // export of the trampoline.
    let call_sym = String::from_str("_call");
    let mut exports: Vec<ExportEntry> = match m.exports.take() {
        Some(v) => v,
        None => {
            proof {
                assert(false);
            }
            Vec::new()
        },
    };
    let ghost olde = exports@.map_values(|t: ExportEntry| t@);
    let n = exports.len();
    let mut i: usize = 0;
    while i < n
        invariant
            n == exports@.len(),
            olde.len() == n,
            create_sym@ == create_name(),
            call_sym@ == call_name(),
            forall|j: int| i <= j < n ==> #[trigger] exports@[j]@ == olde[j],
            forall|j: int|
                0 <= j < i ==> #[trigger] exports@[j]@ == rewire_export(olde[j], new_idx),
        decreases n - i,
    {
        if exports[i].field == create_sym {
            proof {
                assert(exports@[i as int]@ == olde[i as int]);
                assert(olde[i as int].field == create_name());
            }
            let new_entry = ExportEntry {
                field: call_sym.clone(),
                internal: Internal::Function(new_idx),
            };
            proof {
                assert(new_entry@.field == call_name());
                assert(new_entry@ == rewire_export(olde[i as int], new_idx));
            }
            exports.set(i, new_entry);
            proof {
                assert(exports@[i as int]@ == rewire_export(olde[i as int], new_idx));
            }
        } else {
            proof {
                assert(exports@[i as int]@ == rewire_export(olde[i as int], new_idx));
            }
        }
        i = i + 1;
    }
    m.exports = Some(exports);
    proof {
        assert(m@.exports == Some(olde.map_values(|e: ExportEntryV| rewire_export(e, new_idx))))
            by {
            assert(exports@.map_values(|t: ExportEntry| t@) =~= olde.map_values(
                |e: ExportEntryV| rewire_export(e, new_idx),
            ));
        }
        assert(m@ =~~= packed_module(raw0, m0));
    }
    Ok(m)
}

} // verus!
