//! Appending a locally defined function to a module.
//!
//! Adding a function touches three sections in step: the signature goes to
//! the Type section, the Function section gains an entry referencing it,
//! and the Code section gains the body.  The new function's combined index
//! is the import count plus the Function section's previous length; the
//! packer needs that index to rewire the export table.

use vstd::prelude::*;
use crate::module::{
    seq_or_empty, import_func_count, local_func_count, FuncBody, FuncBodyV, FunctionType,
    FunctionTypeV, Module, ModuleV,
};

verus! {

/// The module after a function with signature `sig` and body `body` has
/// been appended: the signature is appended to the Type section, the
/// Function section references it, the Code section holds the body.  An
/// absent section counts as empty and is created.
pub open spec fn with_function(m: ModuleV, sig: FunctionTypeV, body: FuncBodyV) -> ModuleV {
    ModuleV {
        types: Some(seq_or_empty(m.types).push(sig)),
        imports: m.imports,
        functions: Some(
            seq_or_empty(m.functions).push(seq_or_empty(m.types).len() as u32),
        ),
        exports: m.exports,
        code: Some(seq_or_empty(m.code).push(body)),
        data: m.data,
    }
}

/// Appends a locally defined function and returns its combined function
/// index.
pub fn push_function(m: &mut Module, sig: FunctionType, body: FuncBody) -> (idx: u32)
    requires
        import_func_count(old(m)@) + local_func_count(old(m)@) <= u32::MAX,
        seq_or_empty(old(m)@.types).len() <= u32::MAX,
    ensures
        final(m)@ == with_function(old(m)@, sig@, body@),
        idx == import_func_count(old(m)@) + local_func_count(old(m)@),
{
    let ifc = m.import_function_count();

    let mut types: Vec<FunctionType> = match m.types.take() {
        Some(v) => v,
        None => Vec::new(),
    };
    let type_index = types.len() as u32;
    types.push(sig);
    m.types = Some(types);

    let mut functions: Vec<u32> = match m.functions.take() {
        Some(v) => v,
        None => Vec::new(),
    };
    let local_count = functions.len();
    functions.push(type_index);
    m.functions = Some(functions);

    let mut code: Vec<FuncBody> = match m.code.take() {
        Some(v) => v,
        None => Vec::new(),
    };
    code.push(body);
    m.code = Some(code);

    proof {
        assert(m@ =~~= with_function(old(m)@, sig@, body@));
    }
    (ifc + local_count) as u32
}

} // verus!
