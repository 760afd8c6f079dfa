//! An execution model for the code the packer emits.
//!
//! The trampoline uses a small instruction repertoire: read the one local,
//! push a constant, store a 32-bit word, call the constructor, end.  This
//! module gives those instructions their stack-machine meaning over a byte
//! vector standing for linear memory, with calls recorded as events rather
//! than executed, and an interpreter proved to follow that meaning.  The
//! data-segment loader models how linear memory looks when a module is
//! instantiated.  Together they let the descriptor round trip be stated
//! and proved: running the packed `_call` places the runtime bytes'
//! offset and length in the descriptor, and those bytes sit in memory
//! unchanged.

use vstd::prelude::*;
use crate::codec::{lemma_u32_le_roundtrip, u32_from_le, u32_le_bytes, write_u32};
use crate::module::{seq_or_empty, DataSegment, DataSegmentV, ModuleV, Opcode};
use crate::pack::{
    new_segment_offset, offset_const, pack_error, pack_fits, packed_module, resolved_ctor,
    trampoline_code,
};

verus! {

/// A call that left the machine: the callee's combined function index and
/// the single `i32` argument it was handed.
#[derive(Clone, Copy, Debug, PartialEq, Eq, Structural)]
pub struct CallEvent {
    pub func: u32,
    pub arg: i32,
}

/// A machine state: the value stack, linear memory, and the calls made so
/// far.
#[verifier::ext_equal]
pub struct EvalStateV {
    pub stack: Seq<i32>,
    pub memory: Seq<u8>,
    pub calls: Seq<CallEvent>,
}

/// The state a body starts in: empty stack, no calls yet.
pub open spec fn init_state(mem: Seq<u8>) -> EvalStateV {
    EvalStateV { stack: Seq::empty(), memory: mem, calls: Seq::empty() }
}

/// The bit pattern of an `i32`, read as unsigned.
pub open spec fn i32_bits(v: i32) -> u32 {
    v as u32
}

/// Memory after a 32-bit word is stored little-endian at `at`.
pub open spec fn store_word(mem: Seq<u8>, at: int, v: i32) -> Seq<u8>
    recommends
        0 <= at,
        at + 4 <= mem.len(),
{
    let b = u32_le_bytes(i32_bits(v));
    mem.update(at, b[0]).update(at + 1, b[1]).update(at + 2, b[2]).update(at + 3, b[3])
}

/// One instruction's meaning; `None` is a trap.  A call pops its one
/// argument and is recorded as an event — constructors have signature
/// `(i32) -> ()`, so nothing is pushed back.
pub open spec fn eval_op(op: Opcode, local0: i32, st: EvalStateV) -> Option<EvalStateV> {
    match op {
        Opcode::GetLocal(n) => if n == 0 {
            Some(EvalStateV { stack: st.stack.push(local0), memory: st.memory, calls: st.calls })
        } else {
            None
        },
        Opcode::I32Const(k) => Some(
            EvalStateV { stack: st.stack.push(k), memory: st.memory, calls: st.calls },
        ),
        Opcode::Call(f) => if st.stack.len() >= 1 {
            Some(
                EvalStateV {
                    stack: st.stack.drop_last(),
                    memory: st.memory,
                    calls: st.calls.push(CallEvent { func: f, arg: st.stack.last() }),
                },
            )
        } else {
            None
        },
        Opcode::I32Store(_align, off) => if st.stack.len() >= 2 {
            let v = st.stack.last();
            let a = st.stack[st.stack.len() - 2];
            let at = a + off;
            if 0 <= a && at + 4 <= st.memory.len() {
                Some(
                    EvalStateV {
                        stack: st.stack.drop_last().drop_last(),
                        memory: store_word(st.memory, at, v),
                        calls: st.calls,
                    },
                )
            } else {
                None
            }
        } else {
            None
        },
        Opcode::End => Some(st),
    }
}

/// A body's meaning: the instructions in order, stopping at a trap.
pub open spec fn eval_ops(ops: Seq<Opcode>, local0: i32, st: EvalStateV) -> Option<EvalStateV>
    decreases ops.len(),
{
    if ops.len() == 0 {
        Some(st)
    } else {
        match eval_op(ops[0], local0, st) {
            None => None,
            Some(st1) => eval_ops(ops.drop_first(), local0, st1),
        }
    }
}

/// What running a body leaves behind: the memory and the calls made.
pub struct Machine {
    pub memory: Vec<u8>,
    pub calls: Vec<CallEvent>,
}

/// Runs a body with the single local `local0` over `memory`, following
/// `eval_ops` exactly; `None` is a trap.
#[verifier::loop_isolation(false)]
pub fn run_code(code: &Vec<Opcode>, local0: i32, memory: Vec<u8>) -> (r: Option<Machine>)
    ensures
        r is Some <==> eval_ops(code@, local0, init_state(memory@)) is Some,
        r matches Some(mach) ==> eval_ops(code@, local0, init_state(memory@)) matches Some(st)
            && mach.memory@ == st.memory && mach.calls@ == st.calls,
{
    let ghost orig = init_state(memory@);
    let mut stack: Vec<i32> = Vec::new();
    let mut mem = memory;
    let mut calls: Vec<CallEvent> = Vec::new();
    let n = code.len();
    let mut i: usize = 0;
    proof {
        assert(code@.skip(0) =~= code@);
        assert(EvalStateV { stack: stack@, memory: mem@, calls: calls@ } =~~= orig);
    }
    while i < n
        invariant
            n == code@.len(),
            0 <= i <= n,
            eval_ops(code@, local0, orig) == eval_ops(
                code@.skip(i as int),
                local0,
                EvalStateV { stack: stack@, memory: mem@, calls: calls@ },
            ),
        decreases n - i,
    {
        let ghost pre = EvalStateV { stack: stack@, memory: mem@, calls: calls@ };
        proof {
            assert(code@.skip(i as int)[0] == code@[i as int]);
            assert(code@.skip(i as int).drop_first() =~= code@.skip(i + 1));
        }
        match code[i] {
            Opcode::GetLocal(k) => {
                if k != 0 {
                    proof {
                        assert(eval_op(code@[i as int], local0, pre) is None);
                        assert(eval_ops(code@, local0, orig) is None);
                    }
                    return None;
                }
                stack.push(local0);
            },
            Opcode::I32Const(k) => {
                stack.push(k);
            },
            Opcode::Call(f) => {
                let arg = match stack.pop() {
                    None => {
                        proof {
                            assert(eval_op(code@[i as int], local0, pre) is None);
                            assert(eval_ops(code@, local0, orig) is None);
                        }
                        return None;
                    },
                    Some(v) => v,
                };
                calls.push(CallEvent { func: f, arg: arg });
            },
            Opcode::I32Store(_align, off) => {
                let v = match stack.pop() {
                    None => {
                        proof {
                            assert(eval_op(code@[i as int], local0, pre) is None);
                            assert(eval_ops(code@, local0, orig) is None);
                        }
                        return None;
                    },
                    Some(x) => x,
                };
                let a = match stack.pop() {
                    None => {
                        proof {
                            assert(eval_op(code@[i as int], local0, pre) is None);
                            assert(eval_ops(code@, local0, orig) is None);
                        }
                        return None;
                    },
                    Some(x) => x,
                };
                if a < 0 {
                    proof {
                        assert(eval_op(code@[i as int], local0, pre) is None);
                        assert(eval_ops(code@, local0, orig) is None);
                    }
                    return None;
                }
                let at64: u64 = (a as u64) + (off as u64);
                if at64 + 4 > mem.len() as u64 {
                    proof {
                        assert(eval_op(code@[i as int], local0, pre) is None);
                        assert(eval_ops(code@, local0, orig) is None);
                    }
                    return None;
                }
                let at = at64 as usize;
                let bits = #[verifier::truncate] (v as u32);
                write_u32(&mut mem, at, bits);
                proof {
                    assert(mem@ =~= store_word(pre.memory, at as int, v)) by {
                        let b = u32_le_bytes(i32_bits(v));
                        assert(mem@.subrange(at as int, at + 4) == b);
                        assert(b.len() == 4);
                        assert(mem@[at as int] == b[0]);
                        assert(mem@[at + 1] == b[1]);
                        assert(mem@[at + 2] == b[2]);
                        assert(mem@[at + 3] == b[3]);
                    }
                }
            },
            Opcode::End => {},
        }
        proof {
            assert(eval_op(code@[i as int], local0, pre) == Some(
                EvalStateV { stack: stack@, memory: mem@, calls: calls@ },
            ));
        }
        i = i + 1;
    }
    proof {
        assert(code@.skip(n as int) =~= Seq::<Opcode>::empty());
    }
    Some(Machine { memory: mem, calls })
}

/// Memory after `bytes` have been copied to `at`.
pub open spec fn store_bytes(mem: Seq<u8>, at: int, bytes: Seq<u8>) -> Seq<u8>
    recommends
        0 <= at,
        at + bytes.len() <= mem.len(),
{
    Seq::new(
        mem.len(),
        |j: int|
            if at <= j < at + bytes.len() {
                bytes[j - at]
            } else {
                mem[j]
            },
    )
}

/// Memory after one data segment is placed, or `None` if the segment's
/// offset expression does not start with a constant that puts it inside
/// memory.
pub open spec fn load_segment(mem: Seq<u8>, s: DataSegmentV) -> Option<Seq<u8>> {
    match offset_const(s.offset) {
        Some(k) => if 0 <= k && k + s.value.len() <= mem.len() {
            Some(store_bytes(mem, k as int, s.value))
        } else {
            None
        },
        None => None,
    }
}

/// Memory after all data segments are placed in order.
pub open spec fn load_segments(mem: Seq<u8>, segs: Seq<DataSegmentV>) -> Option<Seq<u8>>
    decreases segs.len(),
{
    if segs.len() == 0 {
        Some(mem)
    } else {
        match load_segment(mem, segs[0]) {
            None => None,
            Some(m2) => load_segments(m2, segs.drop_first()),
        }
    }
}

/// Placing data segments never changes memory's size.
pub proof fn lemma_load_segments_len(mem: Seq<u8>, segs: Seq<DataSegmentV>)
    requires
        load_segments(mem, segs) is Some,
    ensures
        load_segments(mem, segs) matches Some(m2) && m2.len() == mem.len(),
    decreases segs.len(),
{
    if segs.len() > 0 {
        let m1 = match load_segment(mem, segs[0]) {
            Some(m1) => m1,
            None => mem,
        };
        lemma_load_segments_len(m1, segs.drop_first());
    }
}

/// Placing the segments of `segs` and then one more is placing the longer
/// list.
pub proof fn lemma_load_segments_push(mem: Seq<u8>, segs: Seq<DataSegmentV>, x: DataSegmentV)
    ensures
        load_segments(mem, segs.push(x)) == (match load_segments(mem, segs) {
            None => None::<Seq<u8>>,
            Some(m2) => load_segment(m2, x),
        }),
    decreases segs.len(),
{
    if segs.len() == 0 {
        assert(segs.push(x)[0] == x);
        assert(segs.push(x).drop_first() =~= Seq::<DataSegmentV>::empty());
        match load_segment(mem, x) {
            None => {
                assert(load_segments(mem, segs.push(x)) is None);
            },
            Some(m2) => {
                assert(load_segments(m2, segs.push(x).drop_first()) == Some(m2));
            },
        }
    } else {
        assert(segs.push(x)[0] == segs[0]);
        assert(segs.push(x).drop_first() =~= segs.drop_first().push(x));
        match load_segment(mem, segs[0]) {
            None => {},
            Some(m1) => {
                lemma_load_segments_push(m1, segs.drop_first(), x);
            },
        }
    }
}

/// Fills `memory` from the data segments, following `load_segments`
/// exactly; `None` when a segment does not fit.
#[verifier::loop_isolation(false)]
pub fn load_data(segs: &Vec<DataSegment>, memory: Vec<u8>) -> (r: Option<Vec<u8>>)
    ensures
        r is Some <==> load_segments(memory@, segs@.map_values(|s: DataSegment| s@)) is Some,
        r matches Some(m2) ==> load_segments(memory@, segs@.map_values(|s: DataSegment| s@))
            == Some(m2@),
{
    let ghost sv = segs@.map_values(|s: DataSegment| s@);
    let mut mem = memory;
    let n = segs.len();
    let mut i: usize = 0;
    proof {
        assert(sv.skip(0) =~= sv);
    }
    while i < n
        invariant
            0 <= i <= n,
            load_segments(memory@, sv) == load_segments(mem@, sv.skip(i as int)),
        decreases n - i,
    {
        proof {
            assert(sv.skip(i as int)[0] == sv[i as int]);
            assert(sv.skip(i as int).drop_first() =~= sv.skip(i + 1));
        }
        let seg = &segs[i];
        proof {
            assert(sv[i as int] == seg@);
        }
        let ghost mem0 = mem@;
        if seg.offset.len() == 0 {
            return None;
        }
        let k: i32 = match seg.offset[0] {
            Opcode::I32Const(c) => c,
            _ => {
                return None;
            },
        };
        if k < 0 {
            return None;
        }
        let base = k as usize;
        let mlen = mem.len();
        if base > mlen {
            return None;
        }
        if seg.value.len() > mlen - base {
            return None;
        }
        let len = seg.value.len();
        let mut j: usize = 0;
        while j < len
            invariant
                0 <= j <= len,
                len == seg.value@.len(),
                base + len <= mem@.len(),
                mem@.len() == mem0.len(),
                forall|t: int|
                    0 <= t < mem@.len() && !(base <= t < base + j) ==> mem@[t] == mem0[t],
                forall|t: int| base <= t < base + j ==> mem@[t] == seg.value@[t - base],
            decreases len - j,
        {
            let b = seg.value[j];
            mem.set(base + j, b);
            j = j + 1;
        }
        proof {
            assert(mem@ =~= store_bytes(mem0, base as int, seg.value@));
            assert(load_segment(mem0, sv[i as int]) == Some(mem@));
        }
        i = i + 1;
    }
    proof {
        assert(sv.skip(n as int) =~= Seq::<DataSegmentV>::empty());
    }
    Some(mem)
}

/// Running the trampoline calls the constructor exactly once, with the
/// descriptor pointer as its sole argument, and then writes the data
/// address at descriptor byte 8 and the length at byte 12; no other
/// memory changes.
pub proof fn lemma_trampoline_eval(ctor: u32, addr: i32, len: i32, d: i32, mem: Seq<u8>)
    requires
        0 <= d,
        d + 16 <= mem.len(),
    ensures
        eval_ops(trampoline_code(ctor, addr, len), d, init_state(mem)) matches Some(st) && {
            &&& st.calls == seq![CallEvent { func: ctor, arg: d }]
            &&& st.memory.len() == mem.len()
            &&& st.memory.subrange(d + 8, d + 12) == u32_le_bytes(i32_bits(addr))
            &&& st.memory.subrange(d + 12, d + 16) == u32_le_bytes(i32_bits(len))
            &&& forall|j: int|
                0 <= j < mem.len() && !(d + 8 <= j < d + 16) ==> st.memory[j] == mem[j]
        },
{
    let ops = trampoline_code(ctor, addr, len);
    let s0 = init_state(mem);
    let t1 = ops.drop_first();
    let t2 = t1.drop_first();
    let t3 = t2.drop_first();
    let t4 = t3.drop_first();
    let t5 = t4.drop_first();
    let t6 = t5.drop_first();
    let t7 = t6.drop_first();
    let t8 = t7.drop_first();
    let t9 = t8.drop_first();
    assert(ops[0] == Opcode::GetLocal(0));
    assert(t1[0] == Opcode::Call(ctor));
    assert(t2[0] == Opcode::GetLocal(0));
    assert(t3[0] == Opcode::I32Const(addr));
    assert(t4[0] == Opcode::I32Store(0, 8));
    assert(t5[0] == Opcode::GetLocal(0));
    assert(t6[0] == Opcode::I32Const(len));
    assert(t7[0] == Opcode::I32Store(0, 12));
    assert(t8[0] == Opcode::End);
    assert(t9.len() == 0);

    let s1 = eval_op(ops[0], d, s0).unwrap();
    assert(eval_ops(ops, d, s0) == eval_ops(t1, d, s1));
    assert(s1.stack =~= seq![d]);
    let s2 = eval_op(t1[0], d, s1).unwrap();
    assert(eval_ops(t1, d, s1) == eval_ops(t2, d, s2));
    assert(s2.stack =~= Seq::<i32>::empty());
    assert(s2.calls =~= seq![CallEvent { func: ctor, arg: d }]);
    let s3 = eval_op(t2[0], d, s2).unwrap();
    assert(eval_ops(t2, d, s2) == eval_ops(t3, d, s3));
    assert(s3.stack =~= seq![d]);
    let s4 = eval_op(t3[0], d, s3).unwrap();
    assert(eval_ops(t3, d, s3) == eval_ops(t4, d, s4));
    assert(s4.stack =~= seq![d, addr]);
    assert(s4.stack.last() == addr && s4.stack[0] == d && s4.stack.len() == 2);
    let s5 = eval_op(t4[0], d, s4).unwrap();
    assert(eval_ops(t4, d, s4) == eval_ops(t5, d, s5));
    assert(s5.stack =~= Seq::<i32>::empty());
    assert(s5.memory == store_word(mem, d + 8, addr));
    let s6 = eval_op(t5[0], d, s5).unwrap();
    assert(eval_ops(t5, d, s5) == eval_ops(t6, d, s6));
    assert(s6.stack =~= seq![d]);
    let s7 = eval_op(t6[0], d, s6).unwrap();
    assert(eval_ops(t6, d, s6) == eval_ops(t7, d, s7));
    assert(s7.stack =~= seq![d, len]);
    assert(s7.stack.last() == len && s7.stack[0] == d && s7.stack.len() == 2);
    let s8 = eval_op(t7[0], d, s7).unwrap();
    assert(eval_ops(t7, d, s7) == eval_ops(t8, d, s8));
    assert(s8.memory == store_word(s5.memory, d + 12, len));
    let s9 = eval_op(t8[0], d, s8).unwrap();
    assert(eval_ops(t8, d, s8) == eval_ops(t9, d, s9));
    assert(eval_ops(t9, d, s9) == Some(s9));
    assert(s9 == s8);

    let b1 = u32_le_bytes(i32_bits(addr));
    let b2 = u32_le_bytes(i32_bits(len));
    assert(b1.len() == 4 && b2.len() == 4);
    assert(s8.memory.subrange(d + 8, d + 12) =~= b1);
    assert(s8.memory.subrange(d + 12, d + 16) =~= b2);
    assert(s8.calls == seq![CallEvent { func: ctor, arg: d }]);
}

/// The descriptor round trip: in a linear memory initialized from the
/// packed module's data segments, running the packed `_call`'s body
/// against a descriptor at `d` leaves, at descriptor bytes 8 and 12, a
/// little-endian pointer and length under which exactly the runtime
/// bytes sit — and the constructor is called exactly once, with the
/// descriptor pointer.  The descriptor region must not overlap the
/// embedded segment.
pub proof fn lemma_call_roundtrip(raw: Seq<u8>, m: ModuleV, mem0: Seq<u8>, d: i32)
    requires
        pack_error(m) is None,
        pack_fits(raw, m),
        0 <= new_segment_offset(m.data),
        0 <= d,
        d + 16 <= mem0.len(),
        d + 16 <= new_segment_offset(m.data) || new_segment_offset(m.data) + raw.len() <= d + 8,
        load_segments(mem0, seq_or_empty(packed_module(raw, m).data)) is Some,
    ensures
        ({
            let p = packed_module(raw, m);
            let addr = new_segment_offset(m.data);
            let tramp = seq_or_empty(p.code).last().code;
            &&& tramp == trampoline_code(resolved_ctor(m), addr as i32, raw.len() as i32)
            &&& load_segments(mem0, seq_or_empty(p.data)) matches Some(mem1) && (eval_ops(
                tramp,
                d,
                init_state(mem1),
            ) matches Some(st) && {
                let ptr = u32_from_le(st.memory.subrange(d + 8, d + 12));
                let ln = u32_from_le(st.memory.subrange(d + 12, d + 16));
                &&& st.calls == seq![CallEvent { func: resolved_ctor(m), arg: d }]
                &&& ptr == addr
                &&& ln == raw.len()
                &&& st.memory.subrange(ptr as int, ptr + ln) == raw
            })
        }),
{
    let p = packed_module(raw, m);
    let addr = new_segment_offset(m.data);
    let ctor = resolved_ctor(m);
    let olds = seq_or_empty(m.data);
    let newseg = seq_or_empty(p.data).last();
    assert(seq_or_empty(p.data) == olds.push(newseg));
    assert(offset_const(newseg.offset) == Some(addr as i32));
    assert(newseg.value == raw);

    lemma_load_segments_push(mem0, olds, newseg);
    let mem_a = match load_segments(mem0, olds) {
        Some(v) => v,
        None => mem0,
    };
    assert(load_segments(mem0, olds) == Some(mem_a));
    lemma_load_segments_len(mem0, olds);
    assert(mem_a.len() == mem0.len());
    let mem1 = match load_segments(mem0, seq_or_empty(p.data)) {
        Some(v) => v,
        None => mem0,
    };
    assert(load_segment(mem_a, newseg) == Some(mem1));
    assert(mem1 == store_bytes(mem_a, addr, raw));
    assert(mem1.len() == mem0.len());
    assert(mem1.subrange(addr, addr + raw.len()) =~= raw);

    let tramp = seq_or_empty(p.code).last().code;
    assert(tramp == trampoline_code(ctor, addr as i32, raw.len() as i32));
    lemma_trampoline_eval(ctor, addr as i32, raw.len() as i32, d, mem1);
    let st = eval_ops(tramp, d, init_state(mem1)).unwrap();

    lemma_u32_le_roundtrip();
    assert(i32_bits(addr as i32) == addr as u32);
    assert(i32_bits(raw.len() as i32) == raw.len() as u32);
    let ptr = u32_from_le(st.memory.subrange(d + 8, d + 12));
    let ln = u32_from_le(st.memory.subrange(d + 12, d + 16));
    assert(ptr == addr);
    assert(ln == raw.len());
    assert(st.memory.subrange(ptr as int, ptr + ln) =~= raw);
}

} // verus!
