//! The logic of the sample logger contract.
//!
//! A contract's `_call` receives a descriptor naming an input region (the
//! context) and an output region (the result).  The logger copies its
//! whole input, appends it to the contract storage, and hands the same
//! bytes back as its result.  The descriptor decoding and the final
//! write-back of the result's position are the host boundary and stay
//! outside this model; the logic here works on the plain byte vectors
//! they carry.

use vstd::prelude::*;
use crate::storage::Storage;

verus! {

/// The two byte regions a call descriptor names: the input context and
/// the result to hand back.
pub struct CallArgs {
    pub context: Vec<u8>,
    pub result: Vec<u8>,
}

impl CallArgs {
    /// Wraps a call's input and output buffers.
    pub fn new(context: Vec<u8>, result: Vec<u8>) -> (a: CallArgs)
        ensures
            a.context@ == context@,
            a.result@ == result@,
    {
        CallArgs { context, result }
    }

    /// The call's input bytes.
    pub fn context(&self) -> (r: &Vec<u8>)
        ensures
            r@ == self.context@,
    {
        &self.context
    }

    /// The call's output buffer, for the contract to fill.
    pub fn result_mut(&mut self) -> (r: &mut Vec<u8>)
        ensures
            *r == old(self).result,
            final(self).context == old(self).context,
            final(self).result == *final(r),
    {
        &mut self.result
    }
}

/// A copy of a byte vector.
fn clone_bytes(src: &Vec<u8>) -> (r: Vec<u8>)
    ensures
        r@ == src@,
{
    let n = src.len();
    let mut r: Vec<u8> = Vec::new();
    let mut i: usize = 0;
    while i < n
        invariant
            n == src@.len(),
            0 <= i <= n,
            r@ == src@.take(i as int),
        decreases n - i,
    {
        r.push(src[i]);
        proof {
            assert(r@ =~= src@.take(i + 1));
        }
        i = i + 1;
    }
    proof {
        assert(src@.take(n as int) =~= src@);
    }
    r
}

/// One call of the logger: the input context is appended to the storage
/// and becomes the result.  When the storage cannot take the input — it
/// would outgrow 32-bit addressing — the storage is left as it was and
/// the input still becomes the result, as the logger ignores the
/// append's outcome.
pub fn call(args: &mut CallArgs, storage: &mut Storage)
    requires
        old(storage).wf(),
    ensures
        final(args).context@ == old(args).context@,
        final(args).result@ == old(args).context@,
        old(storage)@.len() + old(args).context@.len() <= u32::MAX ==> final(storage)@ == old(
            storage,
        )@ + old(args).context@,
        old(storage)@.len() + old(args).context@.len() > u32::MAX ==> final(storage)@ == old(
            storage,
        )@,
        final(storage).wf(),
{
    let data = clone_bytes(args.context());
    let _ = storage.append(&data);
    let r = args.result_mut();
    *r = data;
}

} // verus!
