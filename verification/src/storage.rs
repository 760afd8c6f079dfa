//! An in-memory model of the contract storage interface.
//!
//! The host exposes storage to a contract as a file-like byte array with
//! random reads and writes, addressed by 32-bit offsets.  This model keeps
//! the bytes in a vector: reads must lie inside the current contents, a
//! write may overwrite and extend them but not leave a gap, and the whole
//! store never exceeds what a 32-bit offset can address.

use vstd::prelude::*;

verus! {

/// Failure of a storage access: a read or write outside the bounds the
/// interface allows.
#[derive(Debug)]
pub struct Error;

/// The storage contents after `src` is written at `at`: bytes before `at`
/// kept, `src` next, and whatever tail of the old contents lies past the
/// written range.
pub open spec fn written(s: Seq<u8>, at: int, src: Seq<u8>) -> Seq<u8>
    recommends
        0 <= at <= s.len(),
{
    if at + src.len() <= s.len() {
        s.take(at) + src + s.skip(at + src.len())
    } else {
        s.take(at) + src
    }
}

/// The modelled store.
pub struct Storage {
    pub data: Vec<u8>,
}

impl View for Storage {
    type V = Seq<u8>;

    open spec fn view(&self) -> Seq<u8> {
        self.data@
    }
}

impl Storage {
    /// The interface's bound: every byte is addressable by a 32-bit
    /// offset.
    pub open spec fn wf(&self) -> bool {
        self@.len() <= u32::MAX
    }

    /// An empty store.
    pub fn new() -> (s: Storage)
        ensures
            s@ == Seq::<u8>::empty(),
            s.wf(),
    {
        Storage { data: Vec::new() }
    }

    /// The current length of the contract storage.
    pub fn size(&self) -> (r: u32)
        requires
            self.wf(),
        ensures
            r == self@.len(),
    {
        self.data.len() as u32
    }

    /// Fills all of `dst` from storage starting at `offset`; fails if and
    /// only if that range leaves the current contents, and then changes
    /// nothing.
    #[verifier::loop_isolation(false)]
    pub fn read(&self, offset: u32, dst: &mut Vec<u8>) -> (r: Result<u32, Error>)
        requires
            self.wf(),
        ensures
            r is Ok <==> offset + old(dst)@.len() <= self@.len(),
            r matches Ok(n) ==> n == old(dst)@.len() && final(dst)@ == self@.subrange(
                offset as int,
                offset + old(dst)@.len(),
            ),
            r is Err ==> final(dst)@ == old(dst)@,
    {
        let dlen = dst.len();
        if dlen > self.data.len() {
            return Err(Error);
        }
        if offset as usize > self.data.len() - dlen {
            return Err(Error);
        }
        let base = offset as usize;
        let mut j: usize = 0;
        while j < dlen
            invariant
                0 <= j <= dlen,
                dlen == dst@.len(),
                base + dlen <= self.data@.len(),
                forall|t: int| 0 <= t < j ==> dst@[t] == self.data@[base + t],
                forall|t: int| j <= t < dlen ==> dst@[t] == old(dst)@[t],
            decreases dlen - j,
        {
            let b = self.data[base + j];
            dst.set(j, b);
            j = j + 1;
        }
        proof {
            assert(dst@ =~= self@.subrange(offset as int, offset + old(dst)@.len()));
        }
        Ok(dlen as u32)
    }

    /// Writes `src` at `offset`, overwriting and extending the contents;
    /// fails if and only if the write would leave a gap past the current
    /// end or would push the store beyond what 32-bit offsets address,
    /// and then changes nothing.
    #[verifier::loop_isolation(false)]
    pub fn write(&mut self, offset: u32, src: &Vec<u8>) -> (r: Result<u32, Error>)
        requires
            old(self).wf(),
        ensures
            r is Ok <==> offset <= old(self)@.len() && offset + src@.len() <= u32::MAX,
            r matches Ok(n) ==> n == src@.len() && final(self)@ == written(
                old(self)@,
                offset as int,
                src@,
            ),
            r is Err ==> final(self)@ == old(self)@,
            final(self).wf(),
    {
        if offset as usize > self.data.len() {
            return Err(Error);
        }
        if src.len() as u64 > (u32::MAX as u64) - (offset as u64) {
            return Err(Error);
        }
        let ghost old_data = self.data@;
        let base = offset as usize;
        let slen = src.len();
        let mut j: usize = 0;
        while j < slen
            invariant
                0 <= j <= slen,
                slen == src@.len(),
                base <= old_data.len(),
                base + slen <= u32::MAX,
                self.data@.len() == if base + j <= old_data.len() {
                    old_data.len() as int
                } else {
                    base + j
                },
                forall|t: int| 0 <= t < base ==> self.data@[t] == old_data[t],
                forall|t: int| base <= t < base + j ==> self.data@[t] == src@[t - base],
                forall|t: int|
                    base + j <= t < old_data.len() ==> self.data@[t] == old_data[t],
            decreases slen - j,
        {
            let b = src[j];
            if base + j < self.data.len() {
                self.data.set(base + j, b);
            } else {
                self.data.push(b);
            }
            j = j + 1;
        }
        proof {
            assert(self@ =~= written(old_data, base as int, src@));
        }
        Ok(slen as u32)
    }

    /// Appends `src` at the end of the storage and returns the offset it
    /// was placed at; fails if and only if the store would outgrow 32-bit
    /// addressing, and then changes nothing.
    pub fn append(&mut self, src: &Vec<u8>) -> (r: Result<u32, Error>)
        requires
            old(self).wf(),
        ensures
            r is Ok <==> old(self)@.len() + src@.len() <= u32::MAX,
            r matches Ok(n) ==> n == old(self)@.len() && final(self)@ == old(self)@ + src@,
            r is Err ==> final(self)@ == old(self)@,
            final(self).wf(),
    {
        let sz = self.size();
        match self.write(sz, src) {
            Ok(_) => {
                proof {
                    assert(old(self)@.take(sz as int) =~= old(self)@);
                    assert(written(old(self)@, sz as int, src@) =~= old(self)@ + src@);
                }
                Ok(sz)
            },
            Err(e) => Err(e),
        }
    }
}

} // verus!
