//! Sample bookkeeping around noise suppression, resampling and playback.

use vstd::prelude::*;

verus! {

/// How many samples the noise suppressor takes at a time.
pub const FRAME_LEN: usize = 480;

/// How many frames cover `len` samples.
pub open spec fn frame_count(len: nat) -> nat {
    ((len + FRAME_LEN - 1) / FRAME_LEN as int) as nat
}

/// How many samples of an input of `len` lie in frame `k`.
pub open spec fn frame_len(len: nat, k: int) -> int {
    if len - k * FRAME_LEN < FRAME_LEN {
        len - k * FRAME_LEN
    } else {
        FRAME_LEN as int
    }
}

/// The samples of frame `k`: those of the input, then silence.
pub open spec fn frame_samples(input: Seq<i16>, k: int) -> Seq<i16> {
    Seq::new(FRAME_LEN as nat, |i: int| sample_at(input, k * FRAME_LEN + i))
}

/// The sample at `index`, silence beyond the end.
pub open spec fn sample_at(input: Seq<i16>, index: int) -> i16 {
    if 0 <= index < input.len() {
        input[index]
    } else {
        0
    }
}

/// The first samples of each output, as many as its frame had, for an input of `len`
/// samples.
pub open spec fn rejoined(outputs: Seq<Seq<i16>>, len: nat) -> Seq<i16>
    decreases outputs.len(),
{
    if outputs.len() == 0 {
        Seq::empty()
    } else {
        rejoined(outputs.drop_last(), len) + outputs.last().take(
            frame_len(len, outputs.len() - 1),
        )
    }
}

/// The frames of an input.
pub open spec fn frames_of(input: Seq<i16>) -> Seq<Seq<i16>> {
    Seq::new(frame_count(input.len()), |k: int| frame_samples(input, k))
}

/// A suppressor that takes frames one after the other: its state and what comes out, given
/// what one frame makes of its state.
pub open spec fn suppressed<S>(
    step: spec_fn(S, Seq<i16>) -> (S, Seq<i16>),
    state: S,
    list: Seq<Seq<i16>>,
) -> (S, Seq<Seq<i16>>)
    decreases list.len(),
{
    if list.len() == 0 {
        (state, Seq::empty())
    } else {
        let (before, outputs) = suppressed(step, state, list.drop_last());
        let (after, output) = step(before, list.last());
        (after, outputs.push(output))
    }
}

/// What a suppressor makes of an input: its state afterwards, and the samples that come out.
pub open spec fn processed<S>(
    step: spec_fn(S, Seq<i16>) -> (S, Seq<i16>),
    state: S,
    input: Seq<i16>,
) -> (S, Seq<i16>) {
    let (after, outputs) = suppressed(step, state, frames_of(input));
    (after, rejoined(outputs, input.len()))
}

/// What each of these frames holds.
pub open spec fn frame_views(list: Seq<Vec<i16>>) -> Seq<Seq<i16>> {
    list.map_values(|frame: Vec<i16>| frame@)
}

/// Cuts the input into frames and pads the last one with silence.
pub fn frames(input: &[i16]) -> (list: Vec<Vec<i16>>)
    ensures
        list.len() == frame_count(input@.len()),
        forall|k: int| #![trigger list@[k]]
            0 <= k < list.len() ==> list@[k]@ == frame_samples(input@, k),
        frame_views(list@) == frames_of(input@),
{
    let mut list: Vec<Vec<i16>> = Vec::new();
    let mut start: usize = 0;
    while start < input.len()
        invariant
            start <= input.len(),
            start == input.len() || start == list.len() * FRAME_LEN,
            start < input.len() ==> list.len() < frame_count(input@.len()),
            start == input.len() ==> list.len() == frame_count(input@.len()),
            forall|k: int| #![trigger list@[k]]
                0 <= k < list.len() ==> list@[k]@ == frame_samples(input@, k),
        decreases input.len() - start,
    {
        let left: usize = input.len() - start;
        let len: usize = if left < FRAME_LEN {
            left
        } else {
            FRAME_LEN
        };
        let mut samples: Vec<i16> = Vec::new();
        for i in 0..FRAME_LEN
            invariant
                start + len <= input.len(),
                len <= FRAME_LEN,
                len == FRAME_LEN || start + len == input.len(),
                start == list.len() * FRAME_LEN,
                samples@ == frame_samples(input@, list.len() as int).take(i as int),
        {
            let sample: i16 = if i < len {
                input[start + i]
            } else {
                0
            };
            proof {
                let all = frame_samples(input@, list.len() as int);
                assert(all.take(i + 1) =~= all.take(i as int).push(all[i as int]));
            }
            samples.push(sample);
        }
        proof {
            let all = frame_samples(input@, list.len() as int);
            assert(all.take(FRAME_LEN as int) =~= all);
        }
        list.push(samples);
        start += len;
    }
    proof {
        assert(frame_views(list@) =~= frames_of(input@));
    }
    list
}

/// Puts processed frames together again, without the padding, for an input that had
/// `len` samples.
pub fn rejoin(outputs: &Vec<Vec<i16>>, len: usize) -> (samples: Vec<i16>)
    requires
        outputs.len() == frame_count(len as nat),
        forall|k: int| 0 <= k < outputs.len() ==> (#[trigger] outputs@[k])@.len() == FRAME_LEN,
    ensures
        samples@ == rejoined(frame_views(outputs@), len as nat),
{
    let mut samples: Vec<i16> = Vec::new();
    let mut left: usize = len;
    for k in 0..outputs.len()
        invariant
            outputs.len() == frame_count(len as nat),
            forall|k: int| 0 <= k < outputs.len() ==> (#[trigger] outputs@[k])@.len() == FRAME_LEN,
            k < outputs.len() ==> left == len - k * FRAME_LEN,
            samples@ == rejoined(frame_views(outputs@).take(k as int), len as nat),
    {
        let count: usize = if left < FRAME_LEN {
            left
        } else {
            FRAME_LEN
        };
        let ghost before = samples@;
        for i in 0..count
            invariant
                k < outputs.len(),
                outputs@[k as int]@.len() == FRAME_LEN,
                count <= FRAME_LEN,
                samples@ == before + outputs@[k as int]@.take(i as int),
        {
            samples.push(outputs[k][i]);
            proof {
                let output = outputs@[k as int]@;
                assert(output.take(i + 1) =~= output.take(i as int).push(output[i as int]));
            }
        }
        proof {
            let views = frame_views(outputs@);
            assert(views.take(k + 1).drop_last() =~= views.take(k as int));
            assert(views.take(k + 1).last() == outputs@[k as int]@);
        }
        left -= count;
    }
    proof {
        assert(frame_views(outputs@).take(outputs.len() as int) =~= frame_views(outputs@));
    }
    samples
}

/// The samples on both sides of a position between `index` and the next.
pub fn neighbours(input: &[i16], index: usize) -> (pair: (i16, i16))
    ensures
        pair.0 == sample_at(input@, index as int),
        pair.1 == sample_at(input@, index + 1),
{
    let first: i16 = if index < input.len() {
        input[index]
    } else {
        0
    };
    let second: i16 = if input.len() > 0 && index < input.len() - 1 {
        input[index + 1]
    } else {
        0
    };
    (first, second)
}

/// Takes the sample to play next off the queue. The last one waits for company; meanwhile
/// silence plays.
pub fn next_sample(queue: &mut Vec<i16>) -> (sample: i16)
    ensures
        old(queue)@.len() >= 2 ==> sample == old(queue)@[0] && final(queue)@
            == old(queue)@.drop_first(),
        old(queue)@.len() < 2 ==> sample == 0 && final(queue)@ == old(queue)@,
{
    if queue.len() >= 2 {
        let sample: i16 = queue.remove(0);
        proof {
            assert(queue@ =~= old(queue)@.drop_first());
        }
        sample
    } else {
        0
    }
}

proof fn lemma_rejoined(outputs: Seq<Seq<i16>>, len: nat)
    requires
        outputs.len() <= frame_count(len),
        forall|k: int| 0 <= k < outputs.len() ==> (#[trigger] outputs[k]).len() == FRAME_LEN,
    ensures
        rejoined(outputs, len).len() == if outputs.len() * FRAME_LEN < len {
            outputs.len() * FRAME_LEN
        } else {
            len as int
        },
    decreases outputs.len(),
{
    if outputs.len() > 0 {
        lemma_rejoined(outputs.drop_last(), len);
        assert((outputs.len() - 1) * FRAME_LEN == outputs.len() * FRAME_LEN - FRAME_LEN)
            by (nonlinear_arith);
    }
}

/// However the frames are processed, as many samples come out as went in.
pub proof fn law_suppression_keeps_length(input: Seq<i16>, outputs: Seq<Seq<i16>>)
    requires
        outputs.len() == frame_count(input.len()),
        forall|k: int| 0 <= k < outputs.len() ==> (#[trigger] outputs[k]).len() == FRAME_LEN,
    ensures
        rejoined(outputs, input.len()).len() == input.len(),
{
    lemma_rejoined(outputs, input.len());
}

proof fn lemma_identity(input: Seq<i16>, outputs: Seq<Seq<i16>>)
    requires
        outputs.len() <= frame_count(input.len()),
        forall|k: int|
            0 <= k < outputs.len() ==> #[trigger] outputs[k] == frame_samples(input, k),
    ensures
        rejoined(outputs, input.len()) == input.take(
            if outputs.len() * FRAME_LEN < input.len() {
                outputs.len() * FRAME_LEN
            } else {
                input.len() as int
            },
        ),
    decreases outputs.len(),
{
    if outputs.len() > 0 {
        let k = outputs.len() - 1;
        let shorter = outputs.drop_last();
        assert forall|j: int| 0 <= j < shorter.len() implies #[trigger] shorter[j]
            == frame_samples(input, j) by {
            assert(shorter[j] == outputs[j]);
        }
        lemma_identity(input, shorter);
        assert(k * FRAME_LEN == outputs.len() * FRAME_LEN - FRAME_LEN) by (nonlinear_arith)
            requires
                k == outputs.len() - 1,
        ;
        let n = frame_len(input.len(), k);
        assert(outputs[k].take(n) =~= input.subrange(k * FRAME_LEN, k * FRAME_LEN + n));
        assert(input.take(k * FRAME_LEN) + input.subrange(k * FRAME_LEN, k * FRAME_LEN + n)
            =~= input.take(k * FRAME_LEN + n));
    } else {
        assert(input.take(0) =~= Seq::<i16>::empty());
    }
}

/// Frames that come back as they were make up the input again.
pub proof fn law_untouched_frames_rejoin(input: Seq<i16>, outputs: Seq<Seq<i16>>)
    requires
        outputs.len() == frame_count(input.len()),
        forall|k: int|
            0 <= k < outputs.len() ==> #[trigger] outputs[k] == frame_samples(input, k),
    ensures
        rejoined(outputs, input.len()) == input,
{
    lemma_identity(input, outputs);
    assert(input.take(input.len() as int) =~= input);
}

proof fn lemma_frames_of_both(first: Seq<i16>, second: Seq<i16>)
    requires
        first.len() % FRAME_LEN as nat == 0,
    ensures
        frame_count(first.len()) * FRAME_LEN == first.len(),
        frame_count(first.len() + second.len()) == frame_count(first.len()) + frame_count(
            second.len(),
        ),
        frames_of(first + second) == frames_of(first) + frames_of(second),
{
    let whole = first + second;
    let n = frame_count(first.len()) as int;
    assert(n * FRAME_LEN == first.len());
    assert(frame_count(whole.len()) == n + frame_count(second.len()));
    assert forall|k: int| 0 <= k < frame_count(whole.len()) implies #[trigger] frames_of(whole)[k]
        == (frames_of(first) + frames_of(second))[k] by {
        if k < n {
            assert(k * FRAME_LEN + FRAME_LEN <= n * FRAME_LEN) by (nonlinear_arith)
                requires
                    k < n,
            ;
            assert(frame_samples(whole, k) =~= frame_samples(first, k));
        } else {
            assert(k * FRAME_LEN == n * FRAME_LEN + (k - n) * FRAME_LEN) by (nonlinear_arith);
            assert(frame_samples(whole, k) =~= frame_samples(second, k - n));
        }
    }
    assert(frames_of(whole) =~= frames_of(first) + frames_of(second));
}

proof fn lemma_suppressed_both<S>(
    step: spec_fn(S, Seq<i16>) -> (S, Seq<i16>),
    state: S,
    first: Seq<Seq<i16>>,
    second: Seq<Seq<i16>>,
)
    ensures
        ({
            let (between, outputs) = suppressed(step, state, first);
            let (after, others) = suppressed(step, between, second);
            suppressed(step, state, first + second) == (after, outputs + others)
        }),
    decreases second.len(),
{
    let (between, outputs) = suppressed(step, state, first);
    if second.len() > 0 {
        lemma_suppressed_both(step, state, first, second.drop_last());
        assert((first + second).drop_last() =~= first + second.drop_last());
        let (before, others) = suppressed(step, between, second.drop_last());
        let (_, output) = step(before, second.last());
        assert((outputs + others).push(output) =~= outputs + others.push(output));
    } else {
        assert(first + second =~= first);
        assert(outputs + Seq::<Seq<i16>>::empty() =~= outputs);
    }
}

proof fn lemma_outputs<S>(
    step: spec_fn(S, Seq<i16>) -> (S, Seq<i16>),
    state: S,
    list: Seq<Seq<i16>>,
)
    requires
        forall|s: S, frame: Seq<i16>| (#[trigger] step(s, frame)).1.len() == FRAME_LEN,
    ensures
        suppressed(step, state, list).1.len() == list.len(),
        forall|k: int|
            0 <= k < list.len() ==> (#[trigger] suppressed(step, state, list).1[k]).len()
                == FRAME_LEN,
    decreases list.len(),
{
    if list.len() > 0 {
        lemma_outputs(step, state, list.drop_last());
    }
}

proof fn lemma_rejoined_prefix(outputs: Seq<Seq<i16>>, len: nat, more: nat)
    requires
        outputs.len() * FRAME_LEN <= len,
    ensures
        rejoined(outputs, len + more) == rejoined(outputs, len),
    decreases outputs.len(),
{
    if outputs.len() > 0 {
        let k = outputs.len() - 1;
        assert(k * FRAME_LEN == outputs.len() * FRAME_LEN - FRAME_LEN) by (nonlinear_arith)
            requires
                k == outputs.len() - 1,
        ;
        lemma_rejoined_prefix(outputs.drop_last(), len, more);
    }
}

proof fn lemma_rejoined_both(
    outputs: Seq<Seq<i16>>,
    others: Seq<Seq<i16>>,
    len: nat,
    other_len: nat,
)
    requires
        outputs.len() * FRAME_LEN == len,
    ensures
        rejoined(outputs + others, len + other_len) == rejoined(outputs, len) + rejoined(
            others,
            other_len,
        ),
    decreases others.len(),
{
    if others.len() > 0 {
        let k = others.len() - 1;
        let n = outputs.len() + k;
        lemma_rejoined_both(outputs, others.drop_last(), len, other_len);
        assert((outputs + others).drop_last() =~= outputs + others.drop_last());
        assert(n * FRAME_LEN == outputs.len() * FRAME_LEN + k * FRAME_LEN) by (nonlinear_arith)
            requires
                n == outputs.len() + k,
        ;
        assert(frame_len(len + other_len, n) == frame_len(other_len, k));
        assert(rejoined(outputs + others, len + other_len) =~= rejoined(outputs, len) + rejoined(
            others,
            other_len,
        ));
    } else {
        assert(outputs + others =~= outputs);
        lemma_rejoined_prefix(outputs, len, other_len);
        assert(rejoined(outputs, len) + rejoined(others, other_len) =~= rejoined(outputs, len));
    }
}

/// Suppression may be broken off after any whole number of frames: whatever a suppressor
/// makes of a frame and its state, what comes out for two inputs in one is what comes out for
/// the first and then for the second, and each output is as long as its input.
pub proof fn law_suppression_goes_on<S>(
    step: spec_fn(S, Seq<i16>) -> (S, Seq<i16>),
    state: S,
    first: Seq<i16>,
    second: Seq<i16>,
)
    requires
        first.len() % FRAME_LEN as nat == 0,
        forall|s: S, frame: Seq<i16>| (#[trigger] step(s, frame)).1.len() == FRAME_LEN,
    ensures
        ({
            let (between, output) = processed(step, state, first);
            let (after, other) = processed(step, between, second);
            &&& frames_of(first + second) == frames_of(first) + frames_of(second)
            &&& processed(step, state, first + second) == (after, output + other)
            &&& output.len() == first.len()
            &&& other.len() == second.len()
        }),
{
    let (between, outputs) = suppressed(step, state, frames_of(first));
    let (after, others) = suppressed(step, between, frames_of(second));
    lemma_frames_of_both(first, second);
    lemma_suppressed_both(step, state, frames_of(first), frames_of(second));
    lemma_outputs(step, state, frames_of(first));
    lemma_outputs(step, between, frames_of(second));
    lemma_rejoined_both(outputs, others, first.len(), second.len());
    law_suppression_keeps_length(first, outputs);
    law_suppression_keeps_length(second, others);
}

/// Every sample of an input lies in one frame at its place, all frames are full, and what the
/// input does not fill is silent; there is no frame too many.
pub proof fn law_frames_cover_the_input(input: Seq<i16>, k: int, i: int)
    requires
        0 <= k < frames_of(input).len(),
        0 <= i < 480,
    ensures
        frames_of(input)[k].len() == 480,
        k * 480 < input.len() <= 480 * frames_of(input).len(),
        k * 480 + i < input.len() ==> frames_of(input)[k][i] == input[k * 480 + i],
        k * 480 + i >= input.len() ==> frames_of(input)[k][i] == 0,
{
}

/// Beside a position beyond the input there is silence, and inside it the input's own sample.
pub proof fn law_silence_beyond_the_input(input: Seq<i16>, index: int)
    requires
        0 <= index,
    ensures
        index < input.len() ==> sample_at(input, index) == input[index],
        index >= input.len() ==> sample_at(input, index) == 0,
{
}

} // verus!
