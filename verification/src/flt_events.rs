//! Minifilter (FltIo) event payloads and the payload signature used to
//! recognise the same kernel event seen by two trace sessions.

use vstd::prelude::*;

verus! {

/// Fields common to the FltIoInit (96/97) events.
#[derive(Debug, Clone, Copy, PartialEq, Eq)]
pub struct FltIoInit {
    pub routine_addr: usize,
    pub file_object: usize,
    pub file_context: usize,
    pub irp_ptr: usize,
    pub callback_data_ptr: usize,
    pub major_function: u32,
}

/// Fields of the FltIoCompletion (98/99) events.
#[derive(Debug, Clone, Copy, PartialEq, Eq)]
pub struct FltIoCompletion {
    pub initial_time: u64,
    pub routine_addr: usize,
    pub file_object: usize,
    pub file_context: usize,
    pub irp_ptr: usize,
    pub callback_data_ptr: usize,
    pub major_function: u32,
}

/// Fields of the FltIoFailure (100/101) events.
#[derive(Debug, Clone, Copy, PartialEq, Eq)]
pub struct FltIoFailure {
    pub routine_addr: usize,
    pub file_object: usize,
    pub file_context: usize,
    pub irp_ptr: usize,
    pub callback_data_ptr: usize,
    pub major_function: u32,
    pub status: u32,
}

/// A parsed FltIo event of version 3.
#[derive(Debug, Clone, Copy, PartialEq, Eq)]
pub enum FltEvent {
    PreOpInitV3(FltIoInit),
    PostOpInitV3(FltIoInit),
    PreOpCompletionV3(FltIoCompletion),
    PostOpCompletionV3(FltIoCompletion),
    PreOpFailureV3(FltIoFailure),
    PostOpFailureV3(FltIoFailure),
}

/// The FNV-1a 64-bit prime.
pub const FNV_PRIME: u64 = 0x100000001b3;

/// The FNV-1a 64-bit offset basis, the state of a fresh hasher.
pub const FNV_OFFSET_BASIS: u64 = 0xcbf29ce484222325;

/// One FNV-1a step: xor in the byte, multiply by the prime modulo 2^64.
pub open spec fn fnv_step(h: u64, b: u8) -> u64 {
    (((h ^ (b as u64)) as nat * FNV_PRIME as nat) % 0x1_0000_0000_0000_0000nat) as u64
}

/// The hash after feeding the bytes of `s`, in order, starting from `h`.
pub open spec fn fnv_fold(h: u64, s: Seq<u8>) -> u64
    decreases s.len(),
{
    if s.len() == 0 {
        h
    } else {
        fnv_step(fnv_fold(h, s.drop_last()), s.last())
    }
}

/// Little-endian bytes of a 32-bit value.
pub open spec fn le_bytes_u32(v: u32) -> Seq<u8> {
    seq![v as u8, (v >> 8u32) as u8, (v >> 16u32) as u8, (v >> 24u32) as u8]
}

/// Little-endian bytes of a 64-bit value.
pub open spec fn le_bytes_u64(v: u64) -> Seq<u8> {
    seq![
        v as u8,
        (v >> 8u64) as u8,
        (v >> 16u64) as u8,
        (v >> 24u64) as u8,
        (v >> 32u64) as u8,
        (v >> 40u64) as u8,
        (v >> 48u64) as u8,
        (v >> 56u64) as u8,
    ]
}

/// Feeding `a` then `b` is feeding `a + b`.
pub proof fn lemma_fnv_fold_concat(h: u64, a: Seq<u8>, b: Seq<u8>)
    ensures
        fnv_fold(fnv_fold(h, a), b) == fnv_fold(h, a + b),
    decreases b.len(),
{
    if b.len() == 0 {
        assert(a + b =~= a);
    } else {
        lemma_fnv_fold_concat(h, a, b.drop_last());
        assert((a + b).drop_last() =~= a + b.drop_last());
        assert((a + b).last() == b.last());
    }
}

/// A tiny FNV-1a hasher (64-bit).
pub struct Fnv64 {
    pub hash: u64,
}

impl Default for Fnv64 {
    /// A fresh hasher, at the FNV-1a offset basis.
    fn default() -> (h: Self)
        ensures
            h.hash == FNV_OFFSET_BASIS,
    {
        Fnv64 { hash: FNV_OFFSET_BASIS }
    }
}

impl Fnv64 {
    /// Feed one byte.
    pub fn byte(&mut self, b: u8)
        ensures
            final(self).hash == fnv_step(old(self).hash, b),
    {
        self.hash = self.hash ^ (b as u64);
        self.hash = self.hash.wrapping_mul(FNV_PRIME);
    }

    /// Feed every byte of `b`, in order.
    pub fn bytes(&mut self, b: &[u8])
        ensures
            final(self).hash == fnv_fold(old(self).hash, b@),
    {
        let ghost h0 = self.hash;
        let mut i: usize = 0;
        while i < b.len()
            invariant
                i <= b@.len(),
                self.hash == fnv_fold(h0, b@.subrange(0, i as int)),
            decreases b.len() - i,
        {
            self.byte(b[i]);
            proof {
                assert(b@.subrange(0, i + 1).drop_last() =~= b@.subrange(0, i as int));
            }
            i = i + 1;
        }
        assert(b@.subrange(0, b@.len() as int) =~= b@);
    }

    /// Feed the little-endian bytes of a 32-bit value.
    pub fn u32(&mut self, v: u32)
        ensures
            final(self).hash == fnv_fold(old(self).hash, le_bytes_u32(v)),
    {
        let b: [u8; 4] = [v as u8, (v >> 8) as u8, (v >> 16) as u8, (v >> 24) as u8];
        assert(b@ =~= le_bytes_u32(v));
        self.bytes(&b);
    }

    /// Feed the little-endian bytes of a 64-bit value.
    pub fn u64(&mut self, v: u64)
        ensures
            final(self).hash == fnv_fold(old(self).hash, le_bytes_u64(v)),
    {
        let b: [u8; 8] = [
            v as u8,
            (v >> 8) as u8,
            (v >> 16) as u8,
            (v >> 24) as u8,
            (v >> 32) as u8,
            (v >> 40) as u8,
            (v >> 48) as u8,
            (v >> 56) as u8,
        ];
        assert(b@ =~= le_bytes_u64(v));
        self.bytes(&b);
    }

    /// The current hash value.
    pub fn finish(&self) -> (h: u64)
        ensures
            h == self.hash,
    {
        self.hash
    }
}

/// The pointer fields shared by every FltIo payload, as the bytes the signature hashes.
pub open spec fn pointer_bytes(a: usize, b: usize, c: usize, d: usize, e: usize) -> Seq<u8> {
    le_bytes_u64(a as u64) + le_bytes_u64(b as u64) + le_bytes_u64(c as u64) + le_bytes_u64(d as u64)
        + le_bytes_u64(e as u64)
}

/// The bytes that the payload signature hashes: the event's fields, in
/// declaration order, each in little-endian form (pointers as 64-bit values).
pub open spec fn payload_bytes(ev: FltEvent) -> Seq<u8> {
    match ev {
        FltEvent::PreOpInitV3(v) | FltEvent::PostOpInitV3(v) => pointer_bytes(
            v.routine_addr,
            v.file_object,
            v.file_context,
            v.irp_ptr,
            v.callback_data_ptr,
        ) + le_bytes_u32(v.major_function),
        FltEvent::PreOpCompletionV3(v) | FltEvent::PostOpCompletionV3(v) => le_bytes_u64(
            v.initial_time,
        ) + pointer_bytes(v.routine_addr, v.file_object, v.file_context, v.irp_ptr, v.callback_data_ptr)
            + le_bytes_u32(v.major_function),
        FltEvent::PreOpFailureV3(v) | FltEvent::PostOpFailureV3(v) => pointer_bytes(
            v.routine_addr,
            v.file_object,
            v.file_context,
            v.irp_ptr,
            v.callback_data_ptr,
        ) + le_bytes_u32(v.major_function) + le_bytes_u32(v.status),
    }
}

fn hash_pointers(h: &mut Fnv64, a: usize, b: usize, c: usize, d: usize, e: usize)
    ensures
        final(h).hash == fnv_fold(old(h).hash, pointer_bytes(a, b, c, d, e)),
{
    let ghost h0 = h.hash;
    h.u64(a as u64);
    h.u64(b as u64);
    h.u64(c as u64);
    h.u64(d as u64);
    h.u64(e as u64);
    proof {
        let (ba, bb, bc, bd, be) = (
            le_bytes_u64(a as u64),
            le_bytes_u64(b as u64),
            le_bytes_u64(c as u64),
            le_bytes_u64(d as u64),
            le_bytes_u64(e as u64),
        );
        lemma_fnv_fold_concat(h0, ba, bb);
        lemma_fnv_fold_concat(h0, ba + bb, bc);
        lemma_fnv_fold_concat(h0, ba + bb + bc, bd);
        lemma_fnv_fold_concat(h0, ba + bb + bc + bd, be);
    }
}

/// The opcode of an FltIo event: 96 to 101, pre before post, for the init,
/// completion and failure events.
pub open spec fn flt_opcode(ev: FltEvent) -> u8 {
    match ev {
        FltEvent::PreOpInitV3(_) => 96,
        FltEvent::PostOpInitV3(_) => 97,
        FltEvent::PreOpCompletionV3(_) => 98,
        FltEvent::PostOpCompletionV3(_) => 99,
        FltEvent::PreOpFailureV3(_) => 100,
        FltEvent::PostOpFailureV3(_) => 101,
    }
}

/// The bytes the payload signature hashes: the opcode, then the fields.
pub open spec fn sig_input(ev: FltEvent) -> Seq<u8> {
    seq![flt_opcode(ev)] + payload_bytes(ev)
}

/// The opcode of an FltIo event.
pub fn event_opcode(ev: &FltEvent) -> (op: u8)
    ensures
        op == flt_opcode(*ev),
{
    match ev {
        FltEvent::PreOpInitV3(_) => 96,
        FltEvent::PostOpInitV3(_) => 97,
        FltEvent::PreOpCompletionV3(_) => 98,
        FltEvent::PostOpCompletionV3(_) => 99,
        FltEvent::PreOpFailureV3(_) => 100,
        FltEvent::PostOpFailureV3(_) => 101,
    }
}

/// The payload signature of an FltIo event: FNV-1a 64 over its opcode and then
/// its field values, so that two sessions' records of one kernel event agree
/// and events of different opcodes hash different inputs.
pub fn payload_sig(ev: &FltEvent) -> (sig: u64)
    ensures
        sig == fnv_fold(FNV_OFFSET_BASIS, sig_input(*ev)),
{
    let mut h = Fnv64::default();
    let op = event_opcode(ev);
    h.byte(op);
    let ghost start = seq![op];
    proof {
        assert(start.drop_last() =~= Seq::<u8>::empty());
        assert(fnv_fold(FNV_OFFSET_BASIS, start.drop_last()) == FNV_OFFSET_BASIS);
        assert(start.last() == op);
        assert(h.hash == fnv_fold(FNV_OFFSET_BASIS, start));
    }
    match ev {
        FltEvent::PreOpInitV3(v) | FltEvent::PostOpInitV3(v) => {
            let ghost p = pointer_bytes(v.routine_addr, v.file_object, v.file_context, v.irp_ptr, v.callback_data_ptr);
            hash_pointers(&mut h, v.routine_addr, v.file_object, v.file_context, v.irp_ptr, v.callback_data_ptr);
            h.u32(v.major_function);
            proof {
                lemma_fnv_fold_concat(FNV_OFFSET_BASIS, start, p);
                lemma_fnv_fold_concat(FNV_OFFSET_BASIS, start + p, le_bytes_u32(v.major_function));
                assert(start + p + le_bytes_u32(v.major_function) =~= sig_input(*ev));
            }
        },
        FltEvent::PreOpCompletionV3(v) | FltEvent::PostOpCompletionV3(v) => {
            let ghost t = le_bytes_u64(v.initial_time);
            let ghost p = pointer_bytes(v.routine_addr, v.file_object, v.file_context, v.irp_ptr, v.callback_data_ptr);
            h.u64(v.initial_time);
            hash_pointers(&mut h, v.routine_addr, v.file_object, v.file_context, v.irp_ptr, v.callback_data_ptr);
            h.u32(v.major_function);
            proof {
                lemma_fnv_fold_concat(FNV_OFFSET_BASIS, start, t);
                lemma_fnv_fold_concat(FNV_OFFSET_BASIS, start + t, p);
                lemma_fnv_fold_concat(FNV_OFFSET_BASIS, start + t + p, le_bytes_u32(v.major_function));
                assert(start + t + p + le_bytes_u32(v.major_function) =~= sig_input(*ev));
            }
        },
        FltEvent::PreOpFailureV3(v) | FltEvent::PostOpFailureV3(v) => {
            let ghost p = pointer_bytes(v.routine_addr, v.file_object, v.file_context, v.irp_ptr, v.callback_data_ptr);
            hash_pointers(&mut h, v.routine_addr, v.file_object, v.file_context, v.irp_ptr, v.callback_data_ptr);
            h.u32(v.major_function);
            h.u32(v.status);
            proof {
                let m = le_bytes_u32(v.major_function);
                lemma_fnv_fold_concat(FNV_OFFSET_BASIS, start, p);
                lemma_fnv_fold_concat(FNV_OFFSET_BASIS, start + p, m);
                lemma_fnv_fold_concat(FNV_OFFSET_BASIS, start + p + m, le_bytes_u32(v.status));
                assert(start + p + m + le_bytes_u32(v.status) =~= sig_input(*ev));
            }
        },
    }
    h.finish()
}

/// Events of different opcodes never hash the same input: the opcode is the
/// first byte the signature takes in.
pub proof fn law_signature_input_holds_opcode(a: FltEvent, b: FltEvent)
    requires
        flt_opcode(a) != flt_opcode(b),
    ensures
        sig_input(a) != sig_input(b),
{
    assert(sig_input(a)[0] == flt_opcode(a));
    assert(sig_input(b)[0] == flt_opcode(b));
}

proof fn lemma_le_u64_injective(x: u64, y: u64)
    requires
        le_bytes_u64(x) == le_bytes_u64(y),
    ensures
        x == y,
{
    let bx = le_bytes_u64(x);
    let by = le_bytes_u64(y);
    assert(bx[0] == by[0] && bx[1] == by[1] && bx[2] == by[2] && bx[3] == by[3]);
    assert(bx[4] == by[4] && bx[5] == by[5] && bx[6] == by[6] && bx[7] == by[7]);
    assert(x == y) by (bit_vector)
        requires
            x as u8 == y as u8,
            (x >> 8u64) as u8 == (y >> 8u64) as u8,
            (x >> 16u64) as u8 == (y >> 16u64) as u8,
            (x >> 24u64) as u8 == (y >> 24u64) as u8,
            (x >> 32u64) as u8 == (y >> 32u64) as u8,
            (x >> 40u64) as u8 == (y >> 40u64) as u8,
            (x >> 48u64) as u8 == (y >> 48u64) as u8,
            (x >> 56u64) as u8 == (y >> 56u64) as u8,
    ;
}

proof fn lemma_le_u32_injective(x: u32, y: u32)
    requires
        le_bytes_u32(x) == le_bytes_u32(y),
    ensures
        x == y,
{
    let bx = le_bytes_u32(x);
    let by = le_bytes_u32(y);
    assert(bx[0] == by[0] && bx[1] == by[1] && bx[2] == by[2] && bx[3] == by[3]);
    assert(x == y) by (bit_vector)
        requires
            x as u8 == y as u8,
            (x >> 8u32) as u8 == (y >> 8u32) as u8,
            (x >> 16u32) as u8 == (y >> 16u32) as u8,
            (x >> 24u32) as u8 == (y >> 24u32) as u8,
    ;
}

proof fn lemma_pointer_field(a: usize, b: usize)
    requires
        le_bytes_u64(a as u64) == le_bytes_u64(b as u64),
    ensures
        a == b,
{
    lemma_le_u64_injective(a as u64, b as u64);
}

/// The bytes of the five pointer fields, read back at their offsets.
proof fn lemma_pointer_bytes_at(a: usize, b: usize, c: usize, d: usize, e: usize, s: Seq<u8>, o: int)
    requires
        0 <= o,
        s.len() >= o + 40,
        s.subrange(o, o + 40) == pointer_bytes(a, b, c, d, e),
    ensures
        s.subrange(o, o + 8) == le_bytes_u64(a as u64),
        s.subrange(o + 8, o + 16) == le_bytes_u64(b as u64),
        s.subrange(o + 16, o + 24) == le_bytes_u64(c as u64),
        s.subrange(o + 24, o + 32) == le_bytes_u64(d as u64),
        s.subrange(o + 32, o + 40) == le_bytes_u64(e as u64),
{
    let p = pointer_bytes(a, b, c, d, e);
    assert(s.subrange(o, o + 8) =~= p.subrange(0, 8));
    assert(s.subrange(o + 8, o + 16) =~= p.subrange(8, 16));
    assert(s.subrange(o + 16, o + 24) =~= p.subrange(16, 24));
    assert(s.subrange(o + 24, o + 32) =~= p.subrange(24, 32));
    assert(s.subrange(o + 32, o + 40) =~= p.subrange(32, 40));
    assert(p.subrange(0, 8) =~= le_bytes_u64(a as u64));
    assert(p.subrange(8, 16) =~= le_bytes_u64(b as u64));
    assert(p.subrange(16, 24) =~= le_bytes_u64(c as u64));
    assert(p.subrange(24, 32) =~= le_bytes_u64(d as u64));
    assert(p.subrange(32, 40) =~= le_bytes_u64(e as u64));
}

proof fn lemma_init_payload_injective(v: FltIoInit, w: FltIoInit)
    requires
        payload_bytes(FltEvent::PreOpInitV3(v)) == payload_bytes(FltEvent::PreOpInitV3(w)),
    ensures
        v == w,
{
    let sa = payload_bytes(FltEvent::PreOpInitV3(v));
    let sb = payload_bytes(FltEvent::PreOpInitV3(w));
    let pv = pointer_bytes(v.routine_addr, v.file_object, v.file_context, v.irp_ptr, v.callback_data_ptr);
    let pw = pointer_bytes(w.routine_addr, w.file_object, w.file_context, w.irp_ptr, w.callback_data_ptr);
    assert(sa.subrange(0, 40) =~= pv);
    assert(sb.subrange(0, 40) =~= pw);
    lemma_pointer_bytes_at(v.routine_addr, v.file_object, v.file_context, v.irp_ptr, v.callback_data_ptr, sa, 0);
    lemma_pointer_bytes_at(w.routine_addr, w.file_object, w.file_context, w.irp_ptr, w.callback_data_ptr, sb, 0);
    lemma_pointer_field(v.routine_addr, w.routine_addr);
    lemma_pointer_field(v.file_object, w.file_object);
    lemma_pointer_field(v.file_context, w.file_context);
    lemma_pointer_field(v.irp_ptr, w.irp_ptr);
    lemma_pointer_field(v.callback_data_ptr, w.callback_data_ptr);
    assert(sa.subrange(40, 44) =~= le_bytes_u32(v.major_function));
    assert(sb.subrange(40, 44) =~= le_bytes_u32(w.major_function));
    lemma_le_u32_injective(v.major_function, w.major_function);
}

proof fn lemma_completion_payload_injective(v: FltIoCompletion, w: FltIoCompletion)
    requires
        payload_bytes(FltEvent::PreOpCompletionV3(v)) == payload_bytes(FltEvent::PreOpCompletionV3(w)),
    ensures
        v == w,
{
    let sa = payload_bytes(FltEvent::PreOpCompletionV3(v));
    let sb = payload_bytes(FltEvent::PreOpCompletionV3(w));
    let pv = pointer_bytes(v.routine_addr, v.file_object, v.file_context, v.irp_ptr, v.callback_data_ptr);
    let pw = pointer_bytes(w.routine_addr, w.file_object, w.file_context, w.irp_ptr, w.callback_data_ptr);
    assert(sa.subrange(0, 8) =~= le_bytes_u64(v.initial_time));
    assert(sb.subrange(0, 8) =~= le_bytes_u64(w.initial_time));
    lemma_le_u64_injective(v.initial_time, w.initial_time);
    assert(sa.subrange(8, 48) =~= pv);
    assert(sb.subrange(8, 48) =~= pw);
    lemma_pointer_bytes_at(v.routine_addr, v.file_object, v.file_context, v.irp_ptr, v.callback_data_ptr, sa, 8);
    lemma_pointer_bytes_at(w.routine_addr, w.file_object, w.file_context, w.irp_ptr, w.callback_data_ptr, sb, 8);
    lemma_pointer_field(v.routine_addr, w.routine_addr);
    lemma_pointer_field(v.file_object, w.file_object);
    lemma_pointer_field(v.file_context, w.file_context);
    lemma_pointer_field(v.irp_ptr, w.irp_ptr);
    lemma_pointer_field(v.callback_data_ptr, w.callback_data_ptr);
    assert(sa.subrange(48, 52) =~= le_bytes_u32(v.major_function));
    assert(sb.subrange(48, 52) =~= le_bytes_u32(w.major_function));
    lemma_le_u32_injective(v.major_function, w.major_function);
}

proof fn lemma_failure_payload_injective(v: FltIoFailure, w: FltIoFailure)
    requires
        payload_bytes(FltEvent::PreOpFailureV3(v)) == payload_bytes(FltEvent::PreOpFailureV3(w)),
    ensures
        v == w,
{
    let sa = payload_bytes(FltEvent::PreOpFailureV3(v));
    let sb = payload_bytes(FltEvent::PreOpFailureV3(w));
    let pv = pointer_bytes(v.routine_addr, v.file_object, v.file_context, v.irp_ptr, v.callback_data_ptr);
    let pw = pointer_bytes(w.routine_addr, w.file_object, w.file_context, w.irp_ptr, w.callback_data_ptr);
    assert(sa.subrange(0, 40) =~= pv);
    assert(sb.subrange(0, 40) =~= pw);
    lemma_pointer_bytes_at(v.routine_addr, v.file_object, v.file_context, v.irp_ptr, v.callback_data_ptr, sa, 0);
    lemma_pointer_bytes_at(w.routine_addr, w.file_object, w.file_context, w.irp_ptr, w.callback_data_ptr, sb, 0);
    lemma_pointer_field(v.routine_addr, w.routine_addr);
    lemma_pointer_field(v.file_object, w.file_object);
    lemma_pointer_field(v.file_context, w.file_context);
    lemma_pointer_field(v.irp_ptr, w.irp_ptr);
    lemma_pointer_field(v.callback_data_ptr, w.callback_data_ptr);
    assert(sa.subrange(40, 44) =~= le_bytes_u32(v.major_function));
    assert(sb.subrange(40, 44) =~= le_bytes_u32(w.major_function));
    lemma_le_u32_injective(v.major_function, w.major_function);
    assert(sa.subrange(44, 48) =~= le_bytes_u32(v.status));
    assert(sb.subrange(44, 48) =~= le_bytes_u32(w.status));
    lemma_le_u32_injective(v.status, w.status);
}

/// The signature takes in every field of an event: two FltIo events whose
/// signature inputs are equal are the same event (same opcode and every field,
/// the status of a failure included), so events that differ anywhere hash
/// different inputs.
pub proof fn law_signature_input_is_injective(a: FltEvent, b: FltEvent)
    requires
        sig_input(a) == sig_input(b),
    ensures
        a == b,
{
    let sa = sig_input(a);
    let sb = sig_input(b);
    assert(sa[0] == flt_opcode(a));
    assert(sb[0] == flt_opcode(b));
    assert(sa.subrange(1, sa.len() as int) =~= payload_bytes(a));
    assert(sb.subrange(1, sb.len() as int) =~= payload_bytes(b));
    match (a, b) {
        (FltEvent::PreOpInitV3(v), FltEvent::PreOpInitV3(w)) => lemma_init_payload_injective(v, w),
        (FltEvent::PostOpInitV3(v), FltEvent::PostOpInitV3(w)) => lemma_init_payload_injective(v, w),
        (FltEvent::PreOpCompletionV3(v), FltEvent::PreOpCompletionV3(w)) => lemma_completion_payload_injective(v, w),
        (FltEvent::PostOpCompletionV3(v), FltEvent::PostOpCompletionV3(w)) => lemma_completion_payload_injective(v, w),
        (FltEvent::PreOpFailureV3(v), FltEvent::PreOpFailureV3(w)) => lemma_failure_payload_injective(v, w),
        (FltEvent::PostOpFailureV3(v), FltEvent::PostOpFailureV3(w)) => lemma_failure_payload_injective(v, w),
        _ => {},
    }
}

/// The MajorFunction field of an FltIo event.
pub fn major_function(ev: &FltEvent) -> (mj: u32)
    ensures
        mj == match *ev {
            FltEvent::PreOpInitV3(v) | FltEvent::PostOpInitV3(v) => v.major_function,
            FltEvent::PreOpCompletionV3(v) | FltEvent::PostOpCompletionV3(v) => v.major_function,
            FltEvent::PreOpFailureV3(v) | FltEvent::PostOpFailureV3(v) => v.major_function,
        },
{
    match ev {
        FltEvent::PreOpInitV3(v) | FltEvent::PostOpInitV3(v) => v.major_function,
        FltEvent::PreOpCompletionV3(v) | FltEvent::PostOpCompletionV3(v) => v.major_function,
        FltEvent::PreOpFailureV3(v) | FltEvent::PostOpFailureV3(v) => v.major_function,
    }
}

} // verus!
