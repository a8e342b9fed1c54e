//! Circular audio buffer with per-participant segment tracking.
//!
//! Samples are written at the write position and read from the read
//! position; when the buffer is full the oldest sample is overwritten. Each
//! run of samples written for the same participant and question forms a
//! segment, so the player knows whose audio is playing and can drop the audio
//! of stale questions. The buffer is generic over the sample type: it only
//! moves samples around.

use vstd::prelude::*;
use vstd::string::*;
use crate::text::{opt_view, opt_string_eq, clone_opt_string, str_eq};

verus! {

/// Which participant and question owns a run of samples in the buffer.
#[derive(Debug)]
pub struct AudioSegment {
    pub participant_id: Option<String>,
    pub question_id: Option<String>,
    pub samples_remaining: usize,
}

/// The value of a segment.
pub struct SegmentView {
    pub participant: Option<Seq<char>>,
    pub question: Option<Seq<char>>,
    pub remaining: nat,
}

impl View for AudioSegment {
    type V = SegmentView;

    open spec fn view(&self) -> SegmentView {
        SegmentView {
            participant: opt_view(self.participant_id),
            question: opt_view(self.question_id),
            remaining: self.samples_remaining as nat,
        }
    }
}

impl AudioSegment {
    /// A copy of this segment.
    pub fn duplicate(&self) -> (r: AudioSegment)
        ensures
            r@ == self@,
    {
        AudioSegment {
            participant_id: clone_opt_string(&self.participant_id),
            question_id: clone_opt_string(&self.question_id),
            samples_remaining: self.samples_remaining,
        }
    }
}

/// The views of a sequence of segments.
pub open spec fn segs_view(s: Seq<AudioSegment>) -> Seq<SegmentView> {
    s.map_values(|g: AudioSegment| g@)
}

/// The number of samples that a sequence of segments accounts for.
pub open spec fn seg_total(s: Seq<SegmentView>) -> nat
    decreases s.len(),
{
    if s.len() == 0 {
        0
    } else {
        seg_total(s.drop_last()) + s.last().remaining
    }
}

/// One sample leaves the front segment; an exhausted segment is dropped.
pub open spec fn consume_one(s: Seq<SegmentView>) -> Seq<SegmentView> {
    if s.len() == 0 {
        s
    } else if s[0].remaining <= 1 {
        s.drop_first()
    } else {
        s.update(
            0,
            SegmentView {
                participant: s[0].participant,
                question: s[0].question,
                remaining: (s[0].remaining - 1) as nat,
            },
        )
    }
}

/// `n` new samples for participant `p` and question `q` are accounted for:
/// they extend the last segment when it has the same owner, or open a new one.
pub open spec fn append_merge(
    s: Seq<SegmentView>,
    p: Option<Seq<char>>,
    q: Option<Seq<char>>,
    n: nat,
) -> Seq<SegmentView> {
    if n == 0 {
        s
    } else if s.len() > 0 && s.last().participant == p && s.last().question == q {
        s.update(
            s.len() - 1,
            SegmentView { participant: p, question: q, remaining: s.last().remaining + n },
        )
    } else {
        s.push(SegmentView { participant: p, question: q, remaining: n })
    }
}

/// The segments that belong to question `q`, in order.
pub open spec fn kept_for(s: Seq<SegmentView>, q: Seq<char>) -> Seq<SegmentView> {
    s.filter(|g: SegmentView| g.question == Some(q))
}

/// The position after `p` in a ring of `size` slots.
pub open spec fn next_pos(p: int, size: int) -> int {
    if p + 1 == size {
        0
    } else {
        p + 1
    }
}

/// The slot `k` places after `p`, for `p < size` and `k <= size`.
pub open spec fn wrap(x: int, size: int) -> int {
    if x < size {
        x
    } else {
        x - size
    }
}

/// The state of a buffer as a mathematical value.
pub struct Ring<T> {
    pub buf: Seq<T>,
    pub size: int,
    pub read: int,
    pub write: int,
    pub avail: int,
    pub segs: Seq<SegmentView>,
    pub playing: Option<Seq<char>>,
}

/// The samples that reads will return, oldest first.
pub open spec fn contents<T>(r: Ring<T>) -> Seq<T> {
    Seq::new(r.avail as nat, |k: int| r.buf[wrap(r.read + k, r.size)])
}

/// Positions and counters are within the ring.
pub open spec fn ring_ok<T>(r: Ring<T>) -> bool {
    &&& r.buf.len() == r.size
    &&& 0 <= r.avail <= r.size
    &&& (r.size > 0 ==> 0 <= r.read < r.size && 0 <= r.write < r.size)
    &&& (r.size == 0 ==> r.read == 0 && r.write == 0 && r.segs.len() == 0)
    &&& forall|i: int| 0 <= i < r.segs.len() ==> (#[trigger] r.segs[i]).remaining > 0
}

/// The write position follows the last available sample.
pub open spec fn consistent<T>(r: Ring<T>) -> bool {
    r.size > 0 ==> r.write == wrap(r.read + r.avail, r.size)
}

/// One sample is written (overwriting the oldest one when the ring is full).
pub open spec fn write_one<T>(r: Ring<T>, x: T) -> Ring<T> {
    if r.avail < r.size {
        Ring {
            buf: r.buf.update(r.write, x),
            write: next_pos(r.write, r.size),
            avail: r.avail + 1,
            ..r
        }
    } else {
        Ring {
            buf: r.buf.update(r.write, x),
            write: next_pos(r.write, r.size),
            read: next_pos(r.read, r.size),
            segs: consume_one(r.segs),
            ..r
        }
    }
}

/// The samples `xs` are written one after the other.
pub open spec fn write_seq<T>(r: Ring<T>, xs: Seq<T>) -> Ring<T>
    decreases xs.len(),
{
    if xs.len() == 0 {
        r
    } else {
        write_one(write_seq(r, xs.drop_last()), xs.last())
    }
}

/// The whole effect of writing `xs` for participant `p` and question `q`.
pub open spec fn write_spec<T>(
    r: Ring<T>,
    xs: Seq<T>,
    p: Option<Seq<char>>,
    q: Option<Seq<char>>,
) -> Ring<T> {
    let w = write_seq(r, xs);
    Ring { segs: append_merge(w.segs, p, q, xs.len()), ..w }
}

/// One available sample is read; the participant of the front segment
/// becomes the one playing.
pub open spec fn read_one<T>(r: Ring<T>) -> Ring<T> {
    if r.avail > 0 {
        Ring {
            read: next_pos(r.read, r.size),
            avail: r.avail - 1,
            playing: if r.segs.len() > 0 {
                r.segs[0].participant
            } else {
                r.playing
            },
            segs: consume_one(r.segs),
            ..r
        }
    } else {
        r
    }
}

/// `k` samples are read one after the other.
pub open spec fn read_seq<T>(r: Ring<T>, k: nat) -> Ring<T>
    decreases k,
{
    if k == 0 {
        r
    } else {
        read_one(read_seq(r, (k - 1) as nat))
    }
}

/// The last `n` elements of `s` (all of them when there are fewer).
pub open spec fn keep_last<T>(s: Seq<T>, n: int) -> Seq<T> {
    if s.len() <= n {
        s
    } else {
        s.subrange(s.len() - n, s.len() as int)
    }
}

pub proof fn lemma_consume_one_ok(s: Seq<SegmentView>)
    requires
        forall|i: int| 0 <= i < s.len() ==> (#[trigger] s[i]).remaining > 0,
    ensures
        forall|i: int| 0 <= i < consume_one(s).len() ==> (#[trigger] consume_one(s)[i]).remaining > 0,
        s.len() > 0 ==> seg_total(consume_one(s)) + 1 == seg_total(s),
        s.len() == 0 ==> consume_one(s) == s,
{
    if s.len() > 0 {
        lemma_total_front(s);
        let c = consume_one(s);
        if s[0].remaining > 1 {
            lemma_total_front(c);
            assert(c.drop_first() =~= s.drop_first());
        } else {
        }
    }
}

/// The total splits into the front segment and the rest.
pub proof fn lemma_total_front(s: Seq<SegmentView>)
    requires
        s.len() > 0,
    ensures
        seg_total(s) == s[0].remaining + seg_total(s.drop_first()),
    decreases s.len(),
{
    if s.len() > 1 {
        lemma_total_front(s.drop_last());
        assert(s.drop_last().drop_first() =~= s.drop_first().drop_last());
        assert(s.drop_first().last() == s.last());
        assert(s.drop_last()[0] == s[0]);
        assert(seg_total(s.drop_first()) == seg_total(s.drop_first().drop_last()) + s.last().remaining);
    } else {
        assert(s.drop_first().len() == 0);
        assert(s.drop_last().len() == 0);
        assert(seg_total(s.drop_last()) == 0);
        assert(seg_total(s.drop_first()) == 0);
        assert(s.last() == s[0]);
    }
}

pub proof fn lemma_append_merge(
    s: Seq<SegmentView>,
    p: Option<Seq<char>>,
    q: Option<Seq<char>>,
    n: nat,
)
    requires
        forall|i: int| 0 <= i < s.len() ==> (#[trigger] s[i]).remaining > 0,
    ensures
        forall|i: int|
            0 <= i < append_merge(s, p, q, n).len() ==> (#[trigger] append_merge(s, p, q, n)[i]).remaining
                > 0,
        seg_total(append_merge(s, p, q, n)) == seg_total(s) + n,
{
    if n > 0 {
        if s.len() > 0 && s.last().participant == p && s.last().question == q {
            let m = append_merge(s, p, q, n);
            assert(m.drop_last() =~= s.drop_last());
        } else {
            let m = append_merge(s, p, q, n);
            assert(m.drop_last() =~= s);
        }
    }
}

/// Writing one sample keeps a consistent ring consistent and appends the
/// sample to what reads will return, dropping the oldest when full.
pub proof fn lemma_write_one_contents<T>(r: Ring<T>, x: T)
    requires
        ring_ok(r),
        consistent(r),
        r.size > 0,
    ensures
        ring_ok(write_one(r, x)),
        consistent(write_one(r, x)),
        contents(write_one(r, x)) == keep_last(contents(r).push(x), r.size),
{
    let w = write_one(r, x);
    lemma_consume_one_ok(r.segs);
    if r.avail < r.size {
        assert forall|k: int| 0 <= k < r.avail implies #[trigger] wrap(r.read + k, r.size) != r.write by {}
        assert(contents(w) =~= contents(r).push(x));
    } else {
        let c = contents(r).push(x);
        assert forall|k: int| 0 <= k < r.size - 1 implies #[trigger] wrap(w.read + k, r.size) == wrap(
            r.read + k + 1,
            r.size,
        ) by {}
        assert(contents(w) =~= c.subrange(c.len() - r.size, c.len() as int));
    }
}

/// Reading one sample keeps a consistent ring consistent and removes the
/// oldest sample from what reads will return.
pub proof fn lemma_read_one_contents<T>(r: Ring<T>)
    requires
        ring_ok(r),
        r.avail > 0,
    ensures
        ring_ok(read_one(r)),
        consistent(r) ==> consistent(read_one(r)),
        contents(read_one(r)) == contents(r).drop_first(),
{
    lemma_consume_one_ok(r.segs);
    let w = read_one(r);
    assert(contents(w) =~= contents(r).drop_first());
}

/// Writing a sequence keeps a consistent ring consistent, and reads then
/// return the old contents followed by the new samples, of which only the
/// last `size` remain.
pub proof fn lemma_write_seq_contents<T>(r: Ring<T>, xs: Seq<T>)
    requires
        ring_ok(r),
        consistent(r),
        r.size > 0,
    ensures
        ring_ok(write_seq(r, xs)),
        consistent(write_seq(r, xs)),
        contents(write_seq(r, xs)) == keep_last(contents(r) + xs, r.size),
        write_seq(r, xs).size == r.size,
    decreases xs.len(),
{
    if xs.len() > 0 {
        let init = xs.drop_last();
        lemma_write_seq_contents(r, init);
        let m = write_seq(r, init);
        lemma_write_one_contents(m, xs.last());
        let a = contents(r) + init;
        let b = contents(r) + xs;
        assert(b =~= a.push(xs.last()));
        let ka = keep_last(a, r.size);
        assert(keep_last(ka.push(xs.last()), r.size) =~= keep_last(b, r.size));
    }
}

/// Reading `k` samples removes the `k` oldest ones from what reads return.
pub proof fn lemma_read_seq_contents<T>(r: Ring<T>, k: nat)
    requires
        ring_ok(r),
        k <= r.avail,
    ensures
        ring_ok(read_seq(r, k)),
        consistent(r) ==> consistent(read_seq(r, k)),
        contents(read_seq(r, k)) == contents(r).skip(k as int),
        read_seq(r, k).avail == r.avail - k,
        read_seq(r, k).size == r.size,
        read_seq(r, k).buf == r.buf,
    decreases k,
{
    if k > 0 {
        lemma_read_seq_contents(r, (k - 1) as nat);
        let m = read_seq(r, (k - 1) as nat);
        lemma_read_one_contents(m);
        assert(contents(r).skip(k - 1).drop_first() =~= contents(r).skip(k as int));
    }
}

/// Write/read are lossless below capacity: when everything written still
/// fits, reading it all back returns the earlier contents followed by the
/// new samples, in order.
pub proof fn lemma_write_then_read<T>(r: Ring<T>, xs: Seq<T>)
    requires
        ring_ok(r),
        consistent(r),
        r.size > 0,
        r.avail + xs.len() <= r.size,
    ensures
        contents(write_seq(r, xs)) == contents(r) + xs,
        write_seq(r, xs).avail == r.avail + xs.len(),
{
    lemma_write_seq_contents(r, xs);
}

/// The buffer emptied by a reset: nothing available, no segments, nobody
/// playing, both positions at the start.
pub open spec fn reset_ring<T>(r: Ring<T>) -> Ring<T> {
    Ring { read: 0, write: 0, avail: 0, segs: Seq::empty(), playing: None, ..r }
}

/// Playback (re)starts once more than a tenth of a second is buffered.
pub open spec fn restart_due(avail: int, sample_rate: u32) -> bool {
    avail > sample_rate / 10
}

/// A reset empties the buffer; the next write then leaves exactly its last
/// `size` samples buffered, in order, and playback, stopped by the reset,
/// restarts exactly when more than a tenth of a second of them is buffered.
pub proof fn lemma_reset_then_write<T>(
    r: Ring<T>,
    xs: Seq<T>,
    p: Option<Seq<char>>,
    q: Option<Seq<char>>,
    sample_rate: u32,
)
    requires
        ring_ok(r),
        consistent(r),
        r.size > 0,
    ensures
        contents(reset_ring(r)) == Seq::<T>::empty(),
        contents(write_spec(reset_ring(r), xs, p, q)) == keep_last(xs, r.size),
        write_spec(reset_ring(r), xs, p, q).avail == if xs.len() <= r.size {
            xs.len() as int
        } else {
            r.size
        },
        restart_due(write_spec(reset_ring(r), xs, p, q).avail, sample_rate) == (keep_last(
            xs,
            r.size,
        ).len() > sample_rate / 10),
{
    let e = reset_ring(r);
    assert(contents(e) =~= Seq::<T>::empty());
    lemma_write_seq_contents(e, xs);
    assert(contents(e) + xs =~= xs);
}

/// The number of samples held by segments of questions other than `q`.
pub open spec fn stale_total(s: Seq<SegmentView>, q: Seq<char>) -> int {
    seg_total(s) - seg_total(kept_for(s, q))
}

/// The samples of `c` that belong to segments of question `q`, in order:
/// the segments own consecutive runs of `c` from its front, each as many
/// samples as it has remaining (as far as `c` reaches).
pub open spec fn kept_samples<T>(c: Seq<T>, segs: Seq<SegmentView>, q: Seq<char>) -> Seq<T>
    decreases segs.len(),
{
    if segs.len() == 0 {
        Seq::empty()
    } else {
        let n: int = if segs[0].remaining <= c.len() {
            segs[0].remaining as int
        } else {
            c.len() as int
        };
        let rest = kept_samples(c.skip(n), segs.drop_first(), q);
        if segs[0].question == Some(q) {
            c.take(n) + rest
        } else {
            rest
        }
    }
}

/// The buffer after a smart reset for question `q`, when some segment is
/// stale: the kept samples, in their old order, are laid out from the start
/// of the buffer, the segments of other questions (and those without one)
/// are dropped, and the participant of the first kept segment becomes the
/// one playing.
pub open spec fn compacted<T>(r: Ring<T>, q: Seq<char>) -> Ring<T> {
    let ks = kept_samples(contents(r), r.segs, q);
    let kept = kept_for(r.segs, q);
    Ring {
        buf: Seq::new(r.size as nat, |i: int| if i < ks.len() { ks[i] } else { r.buf[i] }),
        size: r.size,
        read: 0,
        write: if ks.len() < r.size {
            ks.len() as int
        } else {
            0
        },
        avail: ks.len() as int,
        segs: kept,
        playing: if kept.len() > 0 {
            kept[0].participant
        } else {
            None
        },
    }
}

/// The effect of a smart reset for question `q`: only the samples of the
/// segments of question `q` remain, in their old order. Nothing changes when
/// no segment is stale.
pub open spec fn smart_reset_spec<T>(r: Ring<T>, q: Seq<char>) -> Ring<T> {
    if stale_total(r.segs, q) > 0 {
        compacted(r, q)
    } else {
        r
    }
}

/// The kept samples never outnumber the samples.
proof fn lemma_kept_samples_len<T>(c: Seq<T>, segs: Seq<SegmentView>, q: Seq<char>)
    ensures
        kept_samples(c, segs, q).len() <= c.len(),
    decreases segs.len(),
{
    if segs.len() > 0 {
        let n: int = if segs[0].remaining <= c.len() {
            segs[0].remaining as int
        } else {
            c.len() as int
        };
        lemma_kept_samples_len(c.skip(n), segs.drop_first(), q);
    }
}

/// One step of `kept_samples` from an inner position: the run of segment
/// `i`, which starts at `off`, then the rest.
proof fn lemma_kept_samples_step<T>(c: Seq<T>, segs: Seq<SegmentView>, q: Seq<char>, off: int, i: int)
    requires
        0 <= off <= c.len(),
        0 <= i < segs.len(),
    ensures
        ({
            let n: int = if segs[i].remaining <= c.len() - off {
                segs[i].remaining as int
            } else {
                c.len() - off
            };
            kept_samples(c.skip(off), segs.skip(i), q) == (if segs[i].question == Some(q) {
                c.subrange(off, off + n)
            } else {
                Seq::<T>::empty()
            }) + kept_samples(c.skip(off + n), segs.skip(i + 1), q)
        }),
{
    let n: int = if segs[i].remaining <= c.len() - off {
        segs[i].remaining as int
    } else {
        c.len() - off
    };
    let t = segs.skip(i);
    assert(t[0] == segs[i]);
    assert(t.drop_first() =~= segs.skip(i + 1));
    assert(c.skip(off).take(n) =~= c.subrange(off, off + n));
    assert(c.skip(off).skip(n) =~= c.skip(off + n));
    let rest = kept_samples(c.skip(off + n), segs.skip(i + 1), q);
    assert(Seq::<T>::empty() + rest =~= rest);
}

/// When the segments account for exactly the samples, the kept samples are
/// as many as the kept segments account for.
proof fn lemma_kept_samples_accounted<T>(c: Seq<T>, segs: Seq<SegmentView>, q: Seq<char>)
    requires
        seg_total(segs) == c.len(),
    ensures
        kept_samples(c, segs, q).len() == seg_total(kept_for(segs, q)),
    decreases segs.len(),
{
    if segs.len() > 0 {
        let g = segs[0];
        let rest = segs.drop_first();
        lemma_total_front(segs);
        let n = g.remaining as int;
        lemma_kept_samples_accounted(c.skip(n), rest, q);
        assert(segs =~= seq![g] + rest);
        Seq::filter_distributes_over_add(seq![g], rest, |s: SegmentView| s.question == Some(q));
        reveal_with_fuel(Seq::filter, 2);
        let kr = kept_for(rest, q);
        if g.question == Some(q) {
            assert(seq![g].filter(|s: SegmentView| s.question == Some(q)) =~= seq![g]);
            assert(kept_for(segs, q) == seq![g] + kr);
            lemma_total_front(seq![g] + kr);
            assert((seq![g] + kr).drop_first() =~= kr);
        } else {
            assert(seq![g].filter(|s: SegmentView| s.question == Some(q)) =~= Seq::<SegmentView>::empty());
            assert(kept_for(segs, q) =~= kr);
        }
    } else {
        assert(kept_for(segs, q) =~= segs);
    }
}

/// The total of a prefix never exceeds the total of the whole.
proof fn lemma_split_total(s: Seq<SegmentView>, i: int)
    requires
        0 <= i <= s.len(),
    ensures
        seg_total(s.take(i)) <= seg_total(s),
    decreases s.len() - i,
{
    if i < s.len() {
        lemma_split_total(s, i + 1);
        assert(s.take(i + 1).drop_last() =~= s.take(i));
    } else {
        assert(s.take(i) =~= s);
    }
}

/// Filtering a sequence with one more element.
proof fn lemma_kept_push(s: Seq<SegmentView>, g: SegmentView, q: Seq<char>)
    ensures
        kept_for(s.push(g), q) == if g.question == Some(q) {
            kept_for(s, q).push(g)
        } else {
            kept_for(s, q)
        },
        seg_total(s.push(g)) == seg_total(s) + g.remaining,
{
    reveal_with_fuel(Seq::filter, 1);
    assert(s.push(g).drop_last() =~= s);
}

/// The kept segments never hold more samples than all segments together,
/// and they keep the positive sizes.
proof fn lemma_kept_total(s: Seq<SegmentView>, q: Seq<char>)
    requires
        forall|i: int| 0 <= i < s.len() ==> (#[trigger] s[i]).remaining > 0,
    ensures
        seg_total(kept_for(s, q)) <= seg_total(s),
        forall|i: int| 0 <= i < kept_for(s, q).len() ==> (#[trigger] kept_for(s, q)[i]).remaining > 0,
        stale_total(s, q) == 0 ==> kept_for(s, q) == s,
    decreases s.len(),
{
    broadcast use vstd::seq_lib::group_filter_ensures;
    if s.len() > 0 {
        let init = s.drop_last();
        let g = s.last();
        lemma_kept_total(init, q);
        assert(init.push(g) =~= s);
        lemma_kept_push(init, g, q);
        let k = kept_for(init, q);
        if g.question == Some(q) {
            assert(kept_for(s, q) == k.push(g));
            assert(k.push(g).drop_last() =~= k);
            assert(seg_total(kept_for(s, q)) == seg_total(k) + g.remaining);
            if stale_total(s, q) == 0 {
                assert(stale_total(init, q) == 0);
                assert(k == init);
            }
        } else {
            assert(kept_for(s, q) == k);
        }
        assert forall|i: int| 0 <= i < kept_for(s, q).len() implies (#[trigger] kept_for(s, q)[i]).remaining > 0 by {
            if i < k.len() {
                assert(kept_for(s, q)[i] == k[i]);
            } else {
                assert(s[s.len() - 1] == g);
            }
        }
    }
}

/// Every available sample is accounted for by exactly one segment sample.
pub open spec fn accounted<T>(r: Ring<T>) -> bool {
    seg_total(r.segs) == r.avail
}

/// While writing a sequence no longer than the ring into an accounted ring,
/// the samples written so far are exactly the ones not yet in a segment.
proof fn lemma_write_seq_pending<T>(r: Ring<T>, xs: Seq<T>)
    requires
        ring_ok(r),
        consistent(r),
        accounted(r),
        r.size > 0,
        xs.len() <= r.size,
    ensures
        seg_total(write_seq(r, xs).segs) + xs.len() == write_seq(r, xs).avail,
    decreases xs.len(),
{
    if xs.len() > 0 {
        let init = xs.drop_last();
        lemma_write_seq_pending(r, init);
        lemma_write_seq_contents(r, init);
        let m = write_seq(r, init);
        lemma_consume_one_ok(m.segs);
        if m.avail >= m.size {
            assert(seg_total(m.segs) >= 1);
            if m.segs.len() == 0 {
                assert(seg_total(m.segs) == 0);
            }
        }
    }
}

/// Writes of at most a buffer's worth of samples, reads, resets and smart
/// resets keep every available sample accounted for by the segments.
pub proof fn lemma_write_keeps_accounted<T>(
    r: Ring<T>,
    xs: Seq<T>,
    p: Option<Seq<char>>,
    q: Option<Seq<char>>,
)
    requires
        ring_ok(r),
        consistent(r),
        accounted(r),
        r.size > 0,
        xs.len() <= r.size,
    ensures
        accounted(write_spec(r, xs, p, q)),
{
    lemma_write_seq_pending(r, xs);
    lemma_write_seq_contents(r, xs);
    lemma_append_merge(write_seq(r, xs).segs, p, q, xs.len());
}

/// Reading keeps every available sample accounted for.
pub proof fn lemma_read_keeps_accounted<T>(r: Ring<T>, k: nat)
    requires
        ring_ok(r),
        accounted(r),
        k <= r.avail,
    ensures
        accounted(read_seq(r, k)),
    decreases k,
{
    if k > 0 {
        lemma_read_keeps_accounted(r, (k - 1) as nat);
        lemma_read_seq_contents(r, (k - 1) as nat);
        let m = read_seq(r, (k - 1) as nat);
        lemma_consume_one_ok(m.segs);
        if m.segs.len() == 0 {
            assert(seg_total(m.segs) == 0);
        }
    }
}

/// A smart reset keeps a consistent ring consistent, and reads then return
/// exactly the samples of the kept segments in their old order (all samples
/// when nothing is stale). On a ring whose segments account for every
/// available sample, they still do afterwards.
pub proof fn lemma_smart_reset_accounted<T>(r: Ring<T>, q: Seq<char>)
    requires
        ring_ok(r),
        consistent(r),
    ensures
        ring_ok(smart_reset_spec(r, q)),
        consistent(smart_reset_spec(r, q)),
        contents(smart_reset_spec(r, q)) == if stale_total(r.segs, q) > 0 {
            kept_samples(contents(r), r.segs, q)
        } else {
            contents(r)
        },
        accounted(r) ==> accounted(smart_reset_spec(r, q)),
{
    lemma_kept_total(r.segs, q);
    if stale_total(r.segs, q) > 0 {
        let c = contents(r);
        let ks = kept_samples(c, r.segs, q);
        lemma_kept_samples_len(c, r.segs, q);
        let s = compacted(r, q);
        assert(r.size > 0);
        assert(contents(s) =~= ks);
        if accounted(r) {
            lemma_kept_samples_accounted(c, r.segs, q);
        }
    }
}

/// The question is present and equal to `active`.
fn question_matches(question: &Option<String>, active: &str) -> (r: bool)
    ensures
        r == (opt_view(*question) == Some(active@)),
{
    match question {
        Some(qid) => str_eq(qid.as_str(), active),
        None => false,
    }
}

/// The samples of `cur` that belong to segments of question `q`, as
/// `kept_samples` describes them.
fn kept_sample_vec<T: Copy>(cur: &Vec<T>, segments: &Vec<AudioSegment>, q: &str) -> (r: Vec<T>)
    ensures
        r@ == kept_samples(cur@, segs_view(segments@), q@),
{
    let ghost sv = segs_view(segments@);
    let ghost c = cur@;
    let mut r: Vec<T> = Vec::new();
    let mut off: usize = 0;
    let mut i: usize = 0;
    assert(c.skip(0) =~= c);
    assert(sv.skip(0) =~= sv);
    while i < segments.len()
        invariant
            sv == segs_view(segments@),
            c == cur@,
            off <= cur.len(),
            i <= segments.len(),
            r@ + kept_samples(c.skip(off as int), sv.skip(i as int), q@) == kept_samples(c, sv, q@),
        decreases segments.len() - i,
    {
        let seg = &segments[i];
        assert(sv[i as int] == seg@);
        let room = cur.len() - off;
        let n = if seg.samples_remaining <= room {
            seg.samples_remaining
        } else {
            room
        };
        proof {
            lemma_kept_samples_step(c, sv, q@, off as int, i as int);
        }
        let keep = question_matches(&seg.question_id, q);
        let ghost r0 = r@;
        if keep {
            let mut j: usize = off;
            while j < off + n
                invariant
                    c == cur@,
                    off + n <= cur.len(),
                    off <= j <= off + n,
                    r@ == r0 + c.subrange(off as int, j as int),
                decreases off + n - j,
            {
                r.push(cur[j]);
                j = j + 1;
                assert(r@ =~= r0 + c.subrange(off as int, j as int));
            }
            assert(r0 + (c.subrange(off as int, off + n) + kept_samples(c.skip(off + n), sv.skip(i + 1), q@))
                =~= (r0 + c.subrange(off as int, off + n)) + kept_samples(c.skip(off + n), sv.skip(i + 1), q@));
        } else {
            assert(Seq::<T>::empty() + kept_samples(c.skip(off + n), sv.skip(i + 1), q@) =~= kept_samples(
                c.skip(off + n),
                sv.skip(i + 1),
                q@,
            ));
        }
        off = off + n;
        i = i + 1;
    }
    assert(sv.skip(i as int).len() == 0);
    assert(r@ + Seq::<T>::empty() =~= r@);
    r
}

/// Circular audio buffer for streaming audio to the output device.
pub struct CircularAudioBuffer<T> {
    buffer: Vec<T>,
    write_pos: usize,
    read_pos: usize,
    available_samples: usize,
    buffer_size: usize,
    segments: Vec<AudioSegment>,
    current_playing_participant: Option<String>,
    silence: T,
}

impl<T: Copy> CircularAudioBuffer<T> {
    /// The buffer as a mathematical value.
    pub closed spec fn ring(&self) -> Ring<T> {
        Ring {
            buf: self.buffer@,
            size: self.buffer_size as int,
            read: self.read_pos as int,
            write: self.write_pos as int,
            avail: self.available_samples as int,
            segs: segs_view(self.segments@),
            playing: opt_view(self.current_playing_participant),
        }
    }

    /// The value written for missing samples.
    pub closed spec fn silence_value(&self) -> T {
        self.silence
    }

    /// The buffer's invariant.
    pub closed spec fn wf(&self) -> bool {
        &&& ring_ok(self.ring())
        &&& consistent(self.ring())
        &&& seg_total(self.ring().segs) + self.buffer_size <= usize::MAX
    }

    /// Creates an empty buffer of `buffer_size` samples; `silence` is what
    /// reads produce once the buffer runs dry.
    pub fn new(buffer_size: usize, silence: T) -> (r: Self)
        ensures
            r.wf(),
            r.ring().size == buffer_size,
            r.ring().avail == 0,
            r.ring().read == 0,
            r.ring().write == 0,
            r.ring().segs.len() == 0,
            r.ring().playing is None,
            consistent(r.ring()),
            r.silence_value() == silence,
    {
        let mut buffer: Vec<T> = Vec::new();
        let mut i: usize = 0;
        while i < buffer_size
            invariant
                i <= buffer_size,
                buffer@.len() == i,
            decreases buffer_size - i,
        {
            buffer.push(silence);
            i = i + 1;
        }
        let r = CircularAudioBuffer {
            buffer,
            write_pos: 0,
            read_pos: 0,
            available_samples: 0,
            buffer_size,
            segments: Vec::new(),
            current_playing_participant: None,
            silence,
        };
        assert(r.ring().segs =~= Seq::<SegmentView>::empty());
        r
    }

    /// Drops one sample from the front segment.
    fn consume_front(&mut self)
        requires
            ring_ok(old(self).ring()),
        ensures
            final(self).ring() == (Ring { segs: consume_one(old(self).ring().segs), ..old(self).ring() }),
            final(self).silence_value() == old(self).silence_value(),
    {
        proof {
            lemma_consume_one_ok(self.ring().segs);
        }
        if self.segments.len() > 0 {
            let ghost s = self.ring().segs;
            let mut seg = self.segments.remove(0);
            assert(seg@ == s[0]);
            if seg.samples_remaining > 0 {
                seg.samples_remaining = seg.samples_remaining - 1;
            }
            if seg.samples_remaining > 0 {
                self.segments.insert(0, seg);
                assert(self.ring().segs =~= consume_one(s));
            } else {
                assert(self.ring().segs =~= consume_one(s));
            }
        }
    }

    /// Writes samples for a participant and question; returns how many were written.
    pub fn write_with_participant(
        &mut self,
        samples: &[T],
        participant_id: Option<String>,
        question_id: Option<String>,
    ) -> (written: usize)
        requires
            old(self).wf(),
            old(self).ring().size > 0 || samples@.len() == 0,
            seg_total(old(self).ring().segs) + samples@.len() + old(self).ring().size <= usize::MAX,
        ensures
            written == samples@.len(),
            final(self).wf(),
            final(self).ring() == write_spec(
                old(self).ring(),
                samples@,
                opt_view(participant_id),
                opt_view(question_id),
            ),
            contents(final(self).ring()) == keep_last(
                contents(old(self).ring()) + samples@,
                old(self).ring().size,
            ),
            final(self).silence_value() == old(self).silence_value(),
    {
        let ghost r0 = self.ring();
        let n = samples.len();
        let mut j: usize = 0;
        assert(samples@.take(0) =~= Seq::<T>::empty());
        while j < n
            invariant
                n == samples@.len(),
                j <= n,
                r0.size > 0 || n == 0,
                self.ring() == write_seq(r0, samples@.take(j as int)),
                ring_ok(self.ring()),
                seg_total(self.ring().segs) <= seg_total(r0.segs),
                seg_total(r0.segs) + n + r0.size <= usize::MAX,
                self.buffer_size == r0.size,
                self.silence == old(self).silence_value(),
            decreases n - j,
        {
            let x = samples[j];
            let ghost before = self.ring();
            proof {
                lemma_consume_one_ok(before.segs);
            }
            self.buffer.set(self.write_pos, x);
            self.write_pos = if self.write_pos + 1 == self.buffer_size {
                0
            } else {
                self.write_pos + 1
            };
            if self.available_samples < self.buffer_size {
                self.available_samples = self.available_samples + 1;
            } else {
                self.read_pos = if self.read_pos + 1 == self.buffer_size {
                    0
                } else {
                    self.read_pos + 1
                };
                self.consume_front();
            }
            j = j + 1;
            assert(samples@.take(j as int).drop_last() =~= samples@.take(j - 1));
            assert(self.ring() == write_one(before, x));
        }
        assert(samples@.take(n as int) =~= samples@);
        let ghost mid = self.ring();
        proof {
            lemma_append_merge(mid.segs, opt_view(participant_id), opt_view(question_id), n as nat);
            if r0.size > 0 {
                lemma_write_seq_contents(r0, samples@);
            } else {
                assert(samples@ =~= Seq::<T>::empty());
                assert(contents(r0) + samples@ =~= contents(r0));
            }
        }
        if n > 0 {
            let len = self.segments.len();
            if len > 0 && opt_string_eq(&self.segments[len - 1].participant_id, &participant_id)
                && opt_string_eq(&self.segments[len - 1].question_id, &question_id) {
                let mut last = self.segments.pop().unwrap();
                assert(last@ == mid.segs.last());
                assert(seg_total(mid.segs) == seg_total(mid.segs.drop_last()) + last.samples_remaining);
                last.samples_remaining = last.samples_remaining + n;
                last.participant_id = participant_id;
                last.question_id = question_id;
                self.segments.push(last);
                assert(self.ring().segs =~= append_merge(
                    mid.segs,
                    opt_view(participant_id),
                    opt_view(question_id),
                    n as nat,
                ));
            } else {
                let seg = AudioSegment { participant_id, question_id, samples_remaining: n };
                self.segments.push(seg);
                assert(self.ring().segs =~= append_merge(
                    mid.segs,
                    opt_view(participant_id),
                    opt_view(question_id),
                    n as nat,
                ));
            }
        }
        n
    }

    /// Fills `output` from the buffer, oldest sample first; slots for which
    /// no sample is available get silence. Returns how many samples were read.
    pub fn read(&mut self, output: &mut [T]) -> (read_count: usize)
        requires
            old(self).wf(),
        ensures
            read_count == if old(output)@.len() <= old(self).ring().avail {
                old(output)@.len() as int
            } else {
                old(self).ring().avail
            },
            final(output)@.len() == old(output)@.len(),
            forall|i: int|
                0 <= i < read_count ==> #[trigger] final(output)@[i] == contents(old(self).ring())[i],
            forall|i: int|
                read_count <= i < old(output)@.len() ==> #[trigger] final(output)@[i]
                    == old(self).silence_value(),
            final(self).wf(),
            final(self).ring() == read_seq(old(self).ring(), read_count as nat),
            contents(final(self).ring()) == contents(old(self).ring()).skip(read_count as int),
            final(self).silence_value() == old(self).silence_value(),
    {
        let ghost r0 = self.ring();
        let ghost c0 = contents(r0);
        let len = output.len();
        let mut count: usize = 0;
        let mut i: usize = 0;
        while i < len
            invariant
                len == output@.len(),
                len == old(output)@.len(),
                i <= len,
                count <= i,
                count <= r0.avail,
                (count < i ==> count == r0.avail),
                self.ring() == read_seq(r0, count as nat),
                self.wf(),
                ring_ok(r0),
                c0 == contents(r0),
                forall|k: int| 0 <= k < count ==> #[trigger] output@[k] == c0[k],
                forall|k: int| count <= k < i ==> #[trigger] output@[k] == self.silence,
                self.silence == old(self).silence_value(),
            decreases len - i,
        {
            proof {
                lemma_read_seq_contents(r0, count as nat);
            }
            if self.available_samples > 0 {
                let ghost before = self.ring();
                assert(contents(before)[0] == c0[count as int]);
                output[i] = self.buffer[self.read_pos];
                self.read_pos = if self.read_pos + 1 == self.buffer_size {
                    0
                } else {
                    self.read_pos + 1
                };
                self.available_samples = self.available_samples - 1;
                count = count + 1;
                if self.segments.len() > 0 {
                    let p = clone_opt_string(&self.segments[0].participant_id);
                    self.current_playing_participant = p;
                    self.consume_front();
                }
                proof {
                    lemma_consume_one_ok(before.segs);
                }
                assert(self.ring() == read_one(before));
            } else {
                output[i] = self.silence;
            }
            i = i + 1;
        }
        proof {
            lemma_read_seq_contents(r0, count as nat);
        }
        count
    }

    /// Keeps only the audio of question `active_question_id`: the samples of
    /// segments that belong to other questions, or to none, are dropped
    /// wherever they stand, and reads then return the kept samples in their
    /// old order.
    pub fn smart_reset(&mut self, active_question_id: &str)
        requires
            old(self).wf(),
        ensures
            final(self).wf(),
            final(self).ring() == smart_reset_spec(old(self).ring(), active_question_id@),
            contents(final(self).ring()) == if stale_total(old(self).ring().segs, active_question_id@)
                > 0 {
                kept_samples(contents(old(self).ring()), old(self).ring().segs, active_question_id@)
            } else {
                contents(old(self).ring())
            },
            final(self).silence_value() == old(self).silence_value(),
    {
        let ghost r0 = self.ring();
        let ghost q = active_question_id@;
        let mut samples_to_discard: usize = 0;
        let mut new_segments: Vec<AudioSegment> = Vec::new();
        let mut i: usize = 0;
        proof {
            lemma_kept_total(r0.segs, q);
        }
        assert(r0.segs.take(0) =~= Seq::<SegmentView>::empty());
        while i < self.segments.len()
            invariant
                self.ring() == r0,
                q == active_question_id@,
                self.wf(),
                i <= self.segments.len(),
                segs_view(new_segments@) == kept_for(r0.segs.take(i as int), q),
                samples_to_discard == stale_total(r0.segs.take(i as int), q),
                seg_total(r0.segs.take(i as int)) <= seg_total(r0.segs),
            decreases self.segments.len() - i,
        {
            let ghost pre = r0.segs.take(i as int);
            assert(r0.segs.take(i + 1) =~= pre.push(r0.segs[i as int]));
            proof {
                lemma_kept_push(pre, r0.segs[i as int], q);
                lemma_kept_total(pre, q);
                let rest = r0.segs.skip(i as int);
                lemma_split_total(r0.segs, i as int + 1);
            }
            let seg = &self.segments[i];
            assert(seg@ == r0.segs[i as int]);
            let keep = question_matches(&seg.question_id, active_question_id);
            proof {
                lemma_kept_push(kept_for(pre, q), r0.segs[i as int], q);
            }
            assert(keep == (r0.segs[i as int].question == Some(q)));
            assert(seg_total(pre.push(r0.segs[i as int])) == seg_total(pre) + seg.samples_remaining);
            if keep {
                new_segments.push(seg.duplicate());
                assert(segs_view(new_segments@) =~= kept_for(r0.segs.take(i as int), q).push(
                    seg@,
                ));
            } else {
                assert(kept_for(r0.segs.take(i + 1), q) == kept_for(pre, q));
                samples_to_discard = samples_to_discard + seg.samples_remaining;
            }
            i = i + 1;
        }
        assert(r0.segs.take(self.segments.len() as int) =~= r0.segs);
        if samples_to_discard > 0 {
            let cur = self.contents_vec();
            let kept = kept_sample_vec(&cur, &self.segments, active_question_id);
            proof {
                lemma_kept_samples_len(cur@, r0.segs, q);
            }
            let len = kept.len();
            let ghost b0 = self.buffer@;
            let mut k: usize = 0;
            while k < len
                invariant
                    len == kept@.len(),
                    len <= self.buffer_size,
                    self.buffer_size == r0.size,
                    self.silence == old(self).silence_value(),
                    self.buffer@.len() == self.buffer_size,
                    b0.len() == self.buffer_size,
                    k <= len,
                    forall|m: int| 0 <= m < self.buffer_size ==> #[trigger] self.buffer@[m] == if m < k {
                        kept@[m]
                    } else {
                        b0[m]
                    },
                decreases len - k,
            {
                self.buffer.set(k, kept[k]);
                k = k + 1;
            }
            self.read_pos = 0;
            self.write_pos = if len < self.buffer_size {
                len
            } else {
                0
            };
            self.available_samples = len;
            self.segments = new_segments;
            self.current_playing_participant = if self.segments.len() > 0 {
                clone_opt_string(&self.segments[0].participant_id)
            } else {
                None
            };
            assert(self.buffer@ =~= compacted(r0, q).buf);
            proof {
                lemma_smart_reset_accounted(r0, q);
            }
        }
    }

    /// The samples that reads will return, oldest first.
    fn contents_vec(&self) -> (r: Vec<T>)
        requires
            self.wf(),
        ensures
            r@ == contents(self.ring()),
    {
        let n = self.available_samples;
        let mut r: Vec<T> = Vec::new();
        let mut k: usize = 0;
        while k < n
            invariant
                self.wf(),
                n == self.ring().avail,
                k <= n,
                r@ =~= contents(self.ring()).take(k as int),
            decreases n - k,
        {
            let idx = if k < self.buffer_size - self.read_pos {
                self.read_pos + k
            } else {
                k - (self.buffer_size - self.read_pos)
            };
            assert(idx == wrap(self.read_pos + k, self.buffer_size as int));
            r.push(self.buffer[idx]);
            k = k + 1;
            assert(r@ =~= contents(self.ring()).take(k as int));
        }
        r
    }

    /// The participant whose audio was read last.
    pub fn current_participant(&self) -> (r: Option<String>)
        ensures
            opt_view(r) == self.ring().playing,
    {
        clone_opt_string(&self.current_playing_participant)
    }

    /// Empties the buffer.
    pub fn reset(&mut self)
        requires
            old(self).wf(),
        ensures
            final(self).wf(),
            final(self).ring() == reset_ring(old(self).ring()),
            consistent(final(self).ring()),
            contents(final(self).ring()) == Seq::<T>::empty(),
            final(self).silence_value() == old(self).silence_value(),
    {
        self.write_pos = 0;
        self.read_pos = 0;
        self.available_samples = 0;
        self.segments.clear();
        self.current_playing_participant = None;
        assert(self.ring().segs =~= Seq::<SegmentView>::empty());
        assert(contents(self.ring()) =~= Seq::<T>::empty());
    }

    /// The number of samples that the segments account for.
    pub fn segment_total(&self) -> (r: usize)
        requires
            self.wf(),
        ensures
            r == seg_total(self.ring().segs),
    {
        let ghost segs = self.ring().segs;
        let mut total: usize = 0;
        let mut i: usize = 0;
        assert(segs.take(0) =~= Seq::<SegmentView>::empty());
        while i < self.segments.len()
            invariant
                self.wf(),
                segs == self.ring().segs,
                i <= self.segments.len(),
                total == seg_total(segs.take(i as int)),
            decreases self.segments.len() - i,
        {
            proof {
                lemma_split_total(segs, i as int + 1);
                assert(segs.take(i + 1).drop_last() =~= segs.take(i as int));
            }
            total = total + self.segments[i].samples_remaining;
            i = i + 1;
        }
        assert(segs.take(self.segments.len() as int) =~= segs);
        total
    }

    /// Whether `n` more samples can be written without a counter overflowing.
    pub fn can_accept(&self, n: usize) -> (r: bool)
        requires
            self.wf(),
        ensures
            r == ((self.ring().size > 0 || n == 0) && seg_total(self.ring().segs) + n
                + self.ring().size <= usize::MAX),
    {
        let total = self.segment_total();
        (self.buffer_size > 0 || n == 0) && n <= usize::MAX - self.buffer_size - total
    }

    /// How many samples are available.
    pub fn available(&self) -> (r: usize)
        ensures
            r == self.ring().avail,
    {
        self.available_samples
    }

    /// The buffer's capacity in samples.
    pub fn capacity(&self) -> (r: usize)
        ensures
            r == self.ring().size,
    {
        self.buffer_size
    }
}

/// The index of a participant of the study session
/// (0 = student1, 1 = student2, 2 = tutor).
pub open spec fn participant_index_spec(p: Seq<char>) -> Option<usize> {
    if p == "student1"@ {
        Some(0)
    } else if p == "student2"@ {
        Some(1)
    } else if p == "tutor"@ {
        Some(2)
    } else {
        None
    }
}

/// Maps a participant name to its index.
pub fn participant_index(p: &str) -> (r: Option<usize>)
    ensures
        r == participant_index_spec(p@),
{
    if str_eq(p, "student1") {
        Some(0)
    } else if str_eq(p, "student2") {
        Some(1)
    } else if str_eq(p, "tutor") {
        Some(2)
    } else {
        None
    }
}

/// Commands handled by the audio thread.
pub enum AudioCommand<T> {
    /// Samples, participant id and question id.
    Write(Vec<T>, Option<String>, Option<String>),
    Reset,
    /// Keep only segments with this question id.
    SmartReset(String),
    Pause,
    Resume,
    Stop,
}

/// The playback state owned by the audio thread: the buffer, whether
/// playback runs, and the instant mute flag set on a human interrupt.
pub struct AudioPlayback<T> {
    pub buffer: CircularAudioBuffer<T>,
    pub is_playing: bool,
    pub force_mute: bool,
    pub sample_rate: u32,
}

impl<T: Copy> AudioPlayback<T> {
    /// A stopped, unmuted playback state around an empty buffer.
    pub fn new(buffer_size: usize, silence: T, sample_rate: u32) -> (r: Self)
        ensures
            r.buffer.wf(),
            r.buffer.ring().size == buffer_size,
            r.buffer.ring().avail == 0,
            consistent(r.buffer.ring()),
            r.buffer.silence_value() == silence,
            !r.is_playing,
            !r.force_mute,
            r.sample_rate == sample_rate,
    {
        AudioPlayback {
            buffer: CircularAudioBuffer::new(buffer_size, silence),
            is_playing: false,
            force_mute: false,
            sample_rate,
        }
    }

    /// Applies one command; returns false when the thread must stop.
    /// Playback starts once more than a tenth of a second of audio is buffered.
    pub fn apply_command(&mut self, cmd: AudioCommand<T>) -> (keep_running: bool)
        requires
            old(self).buffer.wf(),
            match cmd {
                AudioCommand::Write(samples, _, _) => (old(self).buffer.ring().size > 0
                    || samples@.len() == 0) && seg_total(old(self).buffer.ring().segs)
                    + samples@.len() + old(self).buffer.ring().size <= usize::MAX,
                _ => true,
            },
        ensures
            final(self).buffer.wf(),
            final(self).sample_rate == old(self).sample_rate,
            final(self).buffer.silence_value() == old(self).buffer.silence_value(),
            keep_running == !(cmd is Stop),
            match cmd {
                AudioCommand::Write(samples, p, q) => {
                    &&& final(self).buffer.ring() == write_spec(
                        old(self).buffer.ring(),
                        samples@,
                        opt_view(p),
                        opt_view(q),
                    )
                    &&& final(self).is_playing == (old(self).is_playing || restart_due(
                        final(self).buffer.ring().avail,
                        old(self).sample_rate,
                    ))
                    &&& final(self).force_mute == old(self).force_mute
                },
                AudioCommand::Reset => {
                    &&& final(self).buffer.ring() == reset_ring(old(self).buffer.ring())
                    &&& !final(self).is_playing
                    &&& !final(self).force_mute
                },
                AudioCommand::SmartReset(q) => {
                    &&& final(self).buffer.ring() == smart_reset_spec(old(self).buffer.ring(), q@)
                    &&& final(self).is_playing == old(self).is_playing
                    &&& final(self).force_mute == old(self).force_mute
                },
                AudioCommand::Pause => {
                    &&& final(self).buffer.ring() == old(self).buffer.ring()
                    &&& !final(self).is_playing
                    &&& final(self).force_mute == old(self).force_mute
                },
                AudioCommand::Resume => {
                    &&& final(self).buffer.ring() == old(self).buffer.ring()
                    &&& final(self).is_playing
                    &&& final(self).force_mute == old(self).force_mute
                },
                AudioCommand::Stop => {
                    &&& final(self).buffer.ring() == old(self).buffer.ring()
                    &&& final(self).is_playing == old(self).is_playing
                    &&& final(self).force_mute == old(self).force_mute
                },
            },
    {
        match cmd {
            AudioCommand::Write(samples, participant_id, question_id) => {
                self.buffer.write_with_participant(samples.as_slice(), participant_id, question_id);
                if self.buffer.available() > self.sample_rate as usize / 10 {
                    self.is_playing = true;
                }
                true
            },
            AudioCommand::Reset => {
                self.is_playing = false;
                self.buffer.reset();
                self.force_mute = false;
                true
            },
            AudioCommand::SmartReset(question_id) => {
                self.buffer.smart_reset(question_id.as_str());
                true
            },
            AudioCommand::Pause => {
                self.is_playing = false;
                true
            },
            AudioCommand::Resume => {
                self.is_playing = true;
                true
            },
            AudioCommand::Stop => false,
        }
    }

    /// Fills an output block for the audio device: silence while muted or
    /// paused, otherwise the buffered samples (then silence when they run out).
    pub fn fill_output(&mut self, output: &mut [T])
        requires
            old(self).buffer.wf(),
        ensures
            final(self).buffer.wf(),
            final(self).is_playing == old(self).is_playing,
            final(self).force_mute == old(self).force_mute,
            final(self).sample_rate == old(self).sample_rate,
            final(self).buffer.silence_value() == old(self).buffer.silence_value(),
            final(output)@.len() == old(output)@.len(),
            (old(self).force_mute || !old(self).is_playing) ==> {
                &&& final(self).buffer.ring() == old(self).buffer.ring()
                &&& forall|i: int|
                    0 <= i < old(output)@.len() ==> #[trigger] final(output)@[i]
                        == old(self).buffer.silence_value()
            },
            (!old(self).force_mute && old(self).is_playing) ==> {
                let k = if old(output)@.len() <= old(self).buffer.ring().avail {
                    old(output)@.len() as int
                } else {
                    old(self).buffer.ring().avail
                };
                &&& final(self).buffer.ring() == read_seq(old(self).buffer.ring(), k as nat)
                &&& forall|i: int|
                    0 <= i < k ==> #[trigger] final(output)@[i] == contents(
                        old(self).buffer.ring(),
                    )[i]
                &&& forall|i: int|
                    k <= i < old(output)@.len() ==> #[trigger] final(output)@[i]
                        == old(self).buffer.silence_value()
            },
    {
        if self.force_mute || !self.is_playing {
            let len = output.len();
            let mut i: usize = 0;
            while i < len
                invariant
                    len == output@.len(),
                    len == old(output)@.len(),
                    i <= len,
                    forall|k: int| 0 <= k < i ==> #[trigger] output@[k] == self.buffer.silence_value(),
                decreases len - i,
            {
                output[i] = self.buffer.silence;
                i = i + 1;
            }
        } else {
            self.buffer.read(output);
        }
    }
}

} // verus!
