//! The double buffer at the center of the pipeline: a `front` slot that the
//! consumer reads and a `back` slot that the receiver overwrites, with an
//! explicit swap as the only hand-over point.

use vstd::prelude::*;

use crate::FRAME_BYTES;

verus! {

/// Mathematical view of a double buffer: the byte contents of its two slots.
#[verifier::ext_equal]
pub struct BufView {
    pub front: Seq<u8>,
    pub back: Seq<u8>,
}

/// A pair of frame-sized byte stores. The producer writes only `back`; the
/// consumer reads only `front`; `swap` exchanges the two contents.
pub struct DoubleBuffer {
    front: Vec<u8>,
    back: Vec<u8>,
}

impl View for DoubleBuffer {
    type V = BufView;

    closed spec fn view(&self) -> BufView {
        BufView { front: self.front@, back: self.back@ }
    }
}

/// The view after a swap: the two slots exchanged.
pub open spec fn swapped(v: BufView) -> BufView {
    BufView { front: v.back, back: v.front }
}

/// The view after a write into the back slot.
pub open spec fn written(v: BufView, bytes: Seq<u8>) -> BufView {
    BufView { front: v.front, back: bytes }
}

/// One producer/consumer cycle: a write into the back slot followed by a swap.
pub open spec fn cycle(v: BufView, bytes: Seq<u8>) -> BufView {
    swapped(written(v, bytes))
}

/// The view after a whole run of write/swap cycles, one per element of
/// `writes`, in order.
pub open spec fn run_cycles(v: BufView, writes: Seq<Seq<u8>>) -> BufView
    decreases writes.len(),
{
    if writes.len() == 0 {
        v
    } else {
        run_cycles(cycle(v, writes.first()), writes.drop_first())
    }
}

/// Copies a byte slice into a fresh vector.
fn copy_bytes(bytes: &[u8]) -> (v: Vec<u8>)
    ensures
        v@ == bytes@,
{
    let mut v: Vec<u8> = Vec::new();
    let mut i: usize = 0;
    while i < bytes.len()
        invariant
            i <= bytes@.len(),
            v@ == bytes@.take(i as int),
        decreases bytes@.len() - i,
    {
        v.push(bytes[i]);
        proof {
            assert(v@ =~= bytes@.take(i + 1));
        }
        i = i + 1;
    }
    proof {
        assert(bytes@.take(bytes@.len() as int) =~= bytes@);
    }
    v
}

impl DoubleBuffer {
    /// Both slots hold exactly one frame's worth of bytes.
    pub open spec fn wf(self) -> bool {
        self@.front.len() == FRAME_BYTES && self@.back.len() == FRAME_BYTES
    }

    /// A fresh buffer with both slots zeroed.
    pub fn new() -> (buf: DoubleBuffer)
        ensures
            buf.wf(),
            forall|i: int| 0 <= i < buf@.front.len() ==> buf@.front[i] == 0u8,
            forall|i: int| 0 <= i < buf@.back.len() ==> buf@.back[i] == 0u8,
    {
        let front = zero_frame();
        let back = zero_frame();
        DoubleBuffer { front, back }
    }

    /// Reports whether both slots currently hold exactly one frame.
    pub fn is_well_formed(&self) -> (r: bool)
        ensures
            r == self.wf(),
    {
        self.front.len() == FRAME_BYTES && self.back.len() == FRAME_BYTES
    }

    /// Exchanges the contents of `front` and `back`. This is the only point
    /// where a frame written by the producer becomes visible to the consumer.
    pub fn swap(&mut self)
        ensures
            final(self)@ == swapped(old(self)@),
    {
        core::mem::swap(&mut self.front, &mut self.back);
    }

    /// Copies exactly one frame's worth of bytes into the back slot; the
    /// front slot is untouched.
    pub fn write_back(&mut self, bytes: &[u8])
        requires
            bytes@.len() == FRAME_BYTES,
        ensures
            final(self)@ == written(old(self)@, bytes@),
    {
        self.back = copy_bytes(bytes);
    }

    /// Returns an owned copy of the current front contents.
    pub fn read_front(&self) -> (frame: Vec<u8>)
        ensures
            frame@ == self@.front,
    {
        copy_bytes(self.front.as_slice())
    }
}

/// Builds one zeroed frame store.
fn zero_frame() -> (v: Vec<u8>)
    ensures
        v@.len() == FRAME_BYTES,
        forall|i: int| 0 <= i < v@.len() ==> v@[i] == 0u8,
{
    let mut v: Vec<u8> = Vec::new();
    let mut i: usize = 0;
    while i < FRAME_BYTES
        invariant
            i <= FRAME_BYTES,
            v@.len() == i,
            forall|j: int| 0 <= j < v@.len() ==> v@[j] == 0u8,
        decreases FRAME_BYTES - i,
    {
        v.push(0u8);
        i = i + 1;
    }
    v
}

/// Law: in any run of write/swap cycles, reading the front slot right after
/// the `i`-th swap yields exactly the bytes of the `i`-th write — the front
/// frame is never a mixture of two writes.
pub proof fn lemma_frame_integrity(v: BufView, writes: Seq<Seq<u8>>, i: int)
    requires
        0 <= i < writes.len(),
    ensures
        run_cycles(v, writes.take(i + 1)).front == writes[i],
    decreases i,
{
    let head = writes.take(i + 1);
    assert(head.len() == i + 1);
    assert(head.first() == writes.first());
    assert(run_cycles(v, head) == run_cycles(cycle(v, head.first()), head.drop_first()));
    if i == 0 {
        assert(head.drop_first() =~= Seq::<Seq<u8>>::empty());
        assert(run_cycles(cycle(v, head.first()), head.drop_first()) == cycle(v, head.first()));
        assert(cycle(v, writes.first()).front == writes[0]);
    } else {
        assert(head.drop_first() =~= writes.drop_first().take(i));
        lemma_frame_integrity(cycle(v, writes.first()), writes.drop_first(), i - 1);
        assert(writes.drop_first()[i - 1] == writes[i]);
    }
}

/// Law: swapping twice with no intervening write restores both slots.
pub proof fn lemma_swap_involution(v: BufView)
    ensures
        swapped(swapped(v)) == v,
{
    assert(swapped(swapped(v)) =~= v);
}

} // verus!
