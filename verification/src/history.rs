//! Rolling sample histories: a queue per chart that keeps at most as many
//! samples as the chart is wide, newest at the back.
use std::collections::VecDeque;
use vstd::prelude::*;

use crate::text::sat_sub;

verus! {

/// The newest `width` samples of `s` (all of them when there are fewer),
/// oldest first.
pub open spec fn keep_newest<T>(s: Seq<T>, width: nat) -> Seq<T> {
    s.skip(sat_sub(s.len() as int, width as int) as int)
}

/// Drops the oldest samples while there are more than `width`.
pub fn trim_history<T>(history: &mut VecDeque<T>, width: usize)
    ensures
        final(history)@ == keep_newest(old(history)@, width as nat),
{
    let ghost start = history@;
    while history.len() > width
        invariant
            history@.len() >= width ==> history@ == start.skip(start.len() - history@.len()),
            history@.len() < width ==> history@ == start,
            start.len() >= history@.len(),
        decreases history@.len(),
    {
        let ghost before = history@;
        let _ = history.pop_front();
        assert(history@ =~= start.skip(start.len() - history@.len()));
    }
    assert(history@ =~= keep_newest(start, width as nat));
}

/// Appends `sample` as the newest, then drops the oldest samples while
/// there are more than `width`.
pub fn push_sample<T>(history: &mut VecDeque<T>, sample: T, width: usize)
    ensures
        final(history)@ == keep_newest(old(history)@.push(sample), width as nat),
{
    history.push_back(sample);
    trim_history(history, width);
}

/// A history never holds more samples than the chart is wide, and after a
/// push into a chart at least one wide, the newest sample is the one
/// pushed and the samples before it keep their order.
pub proof fn lemma_push_keeps_newest<T>(old_samples: Seq<T>, sample: T, width: nat)
    ensures
        keep_newest(old_samples.push(sample), width).len() <= width,
        keep_newest(old_samples.push(sample), width).len() == (if old_samples.len() + 1 <= width {
            old_samples.len() + 1
        } else {
            width
        }),
        width >= 1 ==> keep_newest(old_samples.push(sample), width).last() == sample,
        forall|i: int|
            0 <= i < keep_newest(old_samples.push(sample), width).len() - 1 ==> #[trigger] keep_newest(
                old_samples.push(sample),
                width,
            )[i] == old_samples[old_samples.len() + 1 - keep_newest(
                old_samples.push(sample),
                width,
            ).len() + i],
{
}

/// Trimming to the width a history already fits leaves it as it is.
pub proof fn lemma_trim_fitting<T>(samples: Seq<T>, width: nat)
    requires
        samples.len() <= width,
    ensures
        keep_newest(samples, width) == samples,
{
    assert(samples.skip(0) =~= samples);
}

} // verus!
