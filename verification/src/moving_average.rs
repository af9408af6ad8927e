use vstd::prelude::*;

verus! {

/// Largest filter capacity accepted by `MovingAverage::new`. Every stored
/// value is a MIDI note number (at most 127), so with at most this many slots
/// the running sum stays far below `u32::MAX`.
pub const MAX_FILTER_SIZE: usize = 0x0010_0000;

/// Sum of a sequence of integers.
pub open spec fn seq_sum(s: Seq<int>) -> int
    decreases s.len(),
{
    if s.len() == 0 {
        0
    } else {
        seq_sum(s.drop_last()) + s.last()
    }
}

/// Truncating integer mean of a buffer of note numbers. All stored values are
/// non-negative, so Euclidean division agrees with truncation toward zero.
pub open spec fn ring_average(s: Seq<int>) -> int {
    seq_sum(s) / (s.len() as int)
}

/// One step of the ring buffer: overwrite the slot at the cursor, then
/// advance the cursor, wrapping at the end of the buffer.
pub open spec fn ring_feed(s: Seq<int>, pos: int, v: int) -> (Seq<int>, int) {
    (s.update(pos, v), if pos + 1 == s.len() { 0int } else { pos + 1 })
}

/// The ring buffer after feeding a whole sequence of values, oldest first.
pub open spec fn ring_feed_all(s: Seq<int>, pos: int, fed: Seq<int>) -> (Seq<int>, int)
    decreases fed.len(),
{
    if fed.len() == 0 {
        (s, pos)
    } else {
        let stepped = ring_feed(s, pos, fed.first());
        ring_feed_all(stepped.0, stepped.1, fed.drop_first())
    }
}

/// How many feeds ago the slot `slot` was last written, counted forward from
/// cursor position `pos` in a buffer of length `len`.
pub open spec fn slot_offset(slot: int, pos: int, len: int) -> int {
    if slot >= pos {
        slot - pos
    } else {
        slot + len - pos
    }
}

/// Fixed-size circular buffer of the most recently accepted MIDI note
/// numbers; its truncating integer mean is the hysteresis baseline of the
/// note decision engine.
pub struct MovingAverage {
    buffer: Vec<i32>,
    position: usize,
}

impl MovingAverage {
    /// The stored values, by slot index.
    pub closed spec fn values(&self) -> Seq<int> {
        self.buffer@.map(|_i: int, v: i32| v as int)
    }

    /// The write cursor.
    pub closed spec fn cursor(&self) -> int {
        self.position as int
    }

    /// Well-formedness: the buffer is non-empty and bounded, the cursor is in
    /// range, and every slot holds a MIDI note number.
    pub open spec fn wf(&self) -> bool {
        &&& 1 <= self.values().len() <= MAX_FILTER_SIZE
        &&& 0 <= self.cursor() < self.values().len()
        &&& forall|i: int| 0 <= i < self.values().len() ==> 0 <= #[trigger] self.values()[i] <= 127
    }

    /// A filter of `size` slots, all holding zero, with the cursor at the
    /// first slot.
    pub fn new(size: usize) -> (r: Self)
        requires
            1 <= size <= MAX_FILTER_SIZE,
        ensures
            r.wf(),
            r.values() == Seq::new(size as nat, |i: int| 0int),
            r.cursor() == 0,
    {
        let mut buffer: Vec<i32> = Vec::new();
        let mut i: usize = 0;
        while i < size
            invariant
                i <= size,
                buffer@.len() == i,
                forall|j: int| 0 <= j < i ==> #[trigger] buffer@[j] == 0,
            decreases size - i,
        {
            buffer.push(0);
            i = i + 1;
        }
        let r = Self { buffer, position: 0 };
        proof {
            assert(r.values() =~= Seq::new(size as nat, |i: int| 0int));
        }
        r
    }

    /// Overwrite the slot at the cursor with `value` and advance the cursor
    /// modulo the buffer length.
    pub fn feed(&mut self, value: i32)
        requires
            old(self).wf(),
            0 <= value <= 127,
        ensures
            final(self).wf(),
            final(self).values() == ring_feed(old(self).values(), old(self).cursor(), value as int).0,
            final(self).cursor() == ring_feed(old(self).values(), old(self).cursor(), value as int).1,
    {
        self.buffer[self.position] = value;
        self.position = self.position + 1;
        if self.position == self.buffer.len() {
            self.position = 0;
        }
        proof {
            assert(self.values() =~= old(self).values().update(old(self).cursor(), value as int));
        }
    }

    /// The truncating integer mean of all stored values, still-zero slots
    /// included.
    pub fn average(&self) -> (r: i32)
        requires
            self.wf(),
        ensures
            r as int == ring_average(self.values()),
            0 <= r <= 127,
    {
        let mut sum: u32 = 0;
        let mut i: usize = 0;
        while i < self.buffer.len()
            invariant
                self.wf(),
                i <= self.buffer@.len(),
                sum as int == seq_sum(self.values().subrange(0, i as int)),
                sum <= 127 * i,
            decreases self.buffer@.len() - i,
        {
            proof {
                assert(self.values().subrange(0, (i + 1) as int).drop_last() =~= self.values().subrange(
                    0,
                    i as int,
                ));
                assert(self.values()[i as int] == self.buffer@[i as int] as int);
            }
            sum = sum + (self.buffer[i] as u32);
            i = i + 1;
        }
        proof {
            assert(self.values().subrange(0, self.values().len() as int) =~= self.values());
            assert(0 <= seq_sum(self.values()) / (self.values().len() as int) <= 127)
                by (nonlinear_arith)
                requires
                    0 <= seq_sum(self.values()),
                    seq_sum(self.values()) <= 127 * self.values().len(),
                    1 <= self.values().len(),
            ;
        }
        (sum / (self.buffer.len() as u32)) as i32
    }

    /// The number of slots.
    pub fn len(&self) -> (n: usize)
        ensures
            n == self.values().len(),
    {
        self.buffer.len()
    }
}

proof fn lemma_seq_sum_zeros(k: int)
    requires
        0 <= k,
    ensures
        seq_sum(Seq::new(k as nat, |i: int| 0int)) == 0,
    decreases k,
{
    if k == 0 {
    } else {
        lemma_seq_sum_zeros(k - 1);
        assert(Seq::new(k as nat, |i: int| 0int).drop_last() =~= Seq::new(
            (k - 1) as nat,
            |i: int| 0int,
        ));
    }
}

/// Law: a filter whose `k` slots are all zero averages to zero, whatever its
/// size; a fresh filter is in exactly that state.
pub proof fn lemma_all_zero_average(k: int)
    requires
        1 <= k,
    ensures
        ring_average(Seq::new(k as nat, |i: int| 0int)) == 0,
{
    lemma_seq_sum_zeros(k);
    assert(0int / k == 0) by (nonlinear_arith)
        requires
            1 <= k,
    ;
}

/// Law: the sum of a concatenation is the sum of the parts.
pub proof fn lemma_seq_sum_concat(a: Seq<int>, b: Seq<int>)
    ensures
        seq_sum(a + b) == seq_sum(a) + seq_sum(b),
    decreases b.len(),
{
    if b.len() == 0 {
        assert(a + b =~= a);
    } else {
        lemma_seq_sum_concat(a, b.drop_last());
        assert((a + b).drop_last() =~= a + b.drop_last());
        assert((a + b).last() == b.last());
    }
}

/// Law: feeding a concatenation is feeding the first part and then the
/// second, so values fed before the last K feeds are overwritten, never
/// averaged.
pub proof fn lemma_ring_feed_all_append(s: Seq<int>, pos: int, a: Seq<int>, b: Seq<int>)
    ensures
        ring_feed_all(s, pos, a + b) == ring_feed_all(
            ring_feed_all(s, pos, a).0,
            ring_feed_all(s, pos, a).1,
            b,
        ),
    decreases a.len(),
{
    if a.len() == 0 {
        assert(a + b =~= b);
    } else {
        let stepped = ring_feed(s, pos, a.first());
        assert((a + b).first() == a.first());
        assert((a + b).drop_first() =~= a.drop_first() + b);
        lemma_ring_feed_all_append(stepped.0, stepped.1, a.drop_first(), b);
    }
}

/// Feeding preserves the buffer length and keeps the cursor in range.
pub proof fn lemma_ring_feed_all_wf(s: Seq<int>, pos: int, fed: Seq<int>)
    requires
        1 <= s.len(),
        0 <= pos < s.len(),
    ensures
        ring_feed_all(s, pos, fed).0.len() == s.len(),
        0 <= ring_feed_all(s, pos, fed).1 < s.len(),
    decreases fed.len(),
{
    if fed.len() == 0 {
    } else {
        let stepped = ring_feed(s, pos, fed.first());
        lemma_ring_feed_all_wf(stepped.0, stepped.1, fed.drop_first());
    }
}

/// Feeding at most one buffer's worth of values writes each value `fed[d]`
/// into the slot `d` steps after the starting cursor and leaves every other
/// slot unchanged.
proof fn lemma_ring_feed_all_slots(s: Seq<int>, pos: int, fed: Seq<int>)
    requires
        1 <= s.len(),
        0 <= pos < s.len(),
        fed.len() <= s.len(),
    ensures
        ({
            let fin = ring_feed_all(s, pos, fed);
            &&& fin.0.len() == s.len()
            &&& forall|slot: int|
                0 <= slot < s.len() ==> #[trigger] fin.0[slot] == (if slot_offset(
                    slot,
                    pos,
                    s.len() as int,
                ) < fed.len() {
                    fed[slot_offset(slot, pos, s.len() as int)]
                } else {
                    s[slot]
                })
        }),
    decreases fed.len(),
{
    let len = s.len() as int;
    if fed.len() == 0 {
    } else {
        let stepped = ring_feed(s, pos, fed.first());
        let s1 = stepped.0;
        let pos1 = stepped.1;
        lemma_ring_feed_all_slots(s1, pos1, fed.drop_first());
        let fin = ring_feed_all(s, pos, fed);
        assert(fin == ring_feed_all(s1, pos1, fed.drop_first()));
        assert forall|slot: int| 0 <= slot < len implies #[trigger] fin.0[slot] == (if slot_offset(
            slot,
            pos,
            len,
        ) < fed.len() {
            fed[slot_offset(slot, pos, len)]
        } else {
            s[slot]
        }) by {
            let d = slot_offset(slot, pos, len);
            let d1 = slot_offset(slot, pos1, len);
            if slot == pos {
                assert(d == 0);
                assert(d1 == len - 1);
                assert(!(d1 < fed.drop_first().len()));
                assert(fin.0[slot] == s1[slot]);
                assert(s1[slot] == fed.first());
                assert(fed[0] == fed.first());
            } else {
                assert(d1 == d - 1);
                if d < fed.len() {
                    assert(fin.0[slot] == fed.drop_first()[d - 1]);
                    assert(fed.drop_first()[d - 1] == fed[d]);
                } else {
                    assert(fin.0[slot] == s1[slot]);
                    assert(s1[slot] == s[slot]);
                }
            }
        }
    }
}

/// Feeding exactly one buffer's worth of values leaves the buffer holding
/// those values, rotated by the starting cursor.
proof fn lemma_ring_feed_all_full(s: Seq<int>, pos: int, fed: Seq<int>)
    requires
        1 <= s.len(),
        0 <= pos < s.len(),
        fed.len() == s.len(),
    ensures
        ring_feed_all(s, pos, fed).0 == fed.subrange(s.len() - pos, s.len() as int) + fed.subrange(
            0,
            s.len() - pos,
        ),
{
    let len = s.len() as int;
    lemma_ring_feed_all_slots(s, pos, fed);
    let fin = ring_feed_all(s, pos, fed).0;
    let rot = fed.subrange(len - pos, len) + fed.subrange(0, len - pos);
    assert forall|slot: int| 0 <= slot < len implies fin[slot] == rot[slot] by {
        if slot < pos {
            assert(rot[slot] == fed[len - pos + slot]);
            assert(slot_offset(slot, pos, len) == slot + len - pos);
        } else {
            assert(rot[slot] == fed.subrange(0, len - pos)[slot - pos]);
            assert(slot_offset(slot, pos, len) == slot - pos);
        }
    }
    assert(fin =~= rot);
}

/// Law: after feeding at least a buffer's worth of values, the running mean
/// is the truncating integer mean of exactly the last K fed values; whatever
/// the buffer held before, and whatever was fed earlier, is gone.
pub proof fn lemma_average_is_mean_of_last_k(s: Seq<int>, pos: int, fed: Seq<int>)
    requires
        1 <= s.len(),
        0 <= pos < s.len(),
        fed.len() >= s.len(),
    ensures
        ({
            let k = s.len() as int;
            let last_k = fed.subrange(fed.len() - k, fed.len() as int);
            ring_average(ring_feed_all(s, pos, fed).0) == seq_sum(last_k) / k
        }),
{
    let k = s.len() as int;
    let n = fed.len() as int;
    let prefix = fed.subrange(0, n - k);
    let last_k = fed.subrange(n - k, n);
    assert(fed =~= prefix + last_k);
    lemma_ring_feed_all_append(s, pos, prefix, last_k);
    let mid = ring_feed_all(s, pos, prefix);
    lemma_ring_feed_all_wf(s, pos, prefix);
    lemma_ring_feed_all_full(mid.0, mid.1, last_k);
    let p2 = mid.1;
    let rot = last_k.subrange(k - p2, k) + last_k.subrange(0, k - p2);
    lemma_seq_sum_concat(last_k.subrange(k - p2, k), last_k.subrange(0, k - p2));
    lemma_seq_sum_concat(last_k.subrange(0, k - p2), last_k.subrange(k - p2, k));
    assert(last_k =~= last_k.subrange(0, k - p2) + last_k.subrange(k - p2, k));
    assert(seq_sum(rot) == seq_sum(last_k));
    assert(rot.len() == k);
}

} // verus!
