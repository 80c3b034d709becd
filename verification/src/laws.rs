//! What holds of every session, proved from the session model.

use crate::concepts::AudioSampleIndex;
use crate::engine::Engine;
use crate::session::{
    audio_index, driven, fanned_out, followed_by, idle, lemma_past_grid_point, mixed, played_all,
    room, session, silent, stretch, ticked, total_frames, Rig,
};
use crate::traits::AudioComponent;
use vstd::arithmetic::div_mod::{lemma_fundamental_div_mod, lemma_fundamental_div_mod_converse};
use vstd::prelude::*;

verus! {

/// No multiple of `period` lies strictly between `at` and the next multiple
/// of `period` after `at`.
pub proof fn lemma_no_grid_point_within_room(period: nat, at: nat, s: nat)
    requires
        period > 0,
        at < s < at + room(period, at),
    ensures
        s % period != 0,
{
    let base = (at - at % period) as nat;
    let quotient = at as int / period as int;
    lemma_fundamental_div_mod(at as int, period as int);
    assert(base == quotient * period + 0) by (nonlinear_arith)
        requires
            at == period * quotient + at % period,
            base == at - at % period,
    ;
    lemma_fundamental_div_mod_converse(base as int, period as int, quotient, 0);
    lemma_past_grid_point(base, (s - base) as nat, period);
}

/// Channel uniformity: in the interleaved form of a mono block, every
/// channel of a frame holds that frame's mono sample.
pub proof fn lemma_channels_uniform<S>(mono: Seq<S>, channels: nat, frame: int, channel: int)
    requires
        0 <= frame < mono.len(),
        0 <= channel < channels,
    ensures
        fanned_out(mono, channels).len() == mono.len() * channels,
        0 <= frame * channels + channel < fanned_out(mono, channels).len(),
        fanned_out(mono, channels)[frame * channels + channel] == mono[frame],
{
    assert(0 <= frame * channels + channel < mono.len() * channels) by (nonlinear_arith)
        requires
            0 <= frame < mono.len(),
            0 <= channel < channels,
    ;
    lemma_fundamental_div_mod_converse(
        frame * channels + channel,
        channels as int,
        frame,
        channel,
    );
}

/// The interleaved form of two blocks, one after the other, is the
/// interleaved form of the first followed by that of the second.
pub proof fn lemma_fanned_out_concat<S>(first: Seq<S>, second: Seq<S>, channels: nat)
    requires
        channels > 0,
    ensures
        fanned_out(first + second, channels) == fanned_out(first, channels) + fanned_out(
            second,
            channels,
        ),
{
    let whole = fanned_out(first + second, channels);
    let parts = fanned_out(first, channels) + fanned_out(second, channels);
    assert((first.len() + second.len()) * channels == first.len() * channels + second.len()
        * channels) by (nonlinear_arith);
    assert(whole.len() == parts.len());
    assert forall|j: int| 0 <= j < whole.len() implies whole[j] == parts[j] by {
        let frame = j / channels as int;
        let channel = j % (channels as int);
        lemma_fundamental_div_mod(j, channels as int);
        assert(0 <= frame < first.len() + second.len()) by (nonlinear_arith)
            requires
                0 <= j < (first.len() + second.len()) * channels,
                j == channels * frame + channel,
                0 <= channel < channels,
        ;
        assert(whole[j] == (first + second)[frame]);
        if j < first.len() * channels {
            assert(frame < first.len()) by (nonlinear_arith)
                requires
                    j < first.len() * channels,
                    j == channels * frame + channel,
                    0 <= channel,
                    channels > 0,
            ;
            assert(parts[j] == fanned_out(first, channels)[j]);
        } else {
            let k = j - first.len() * channels;
            assert(frame >= first.len()) by (nonlinear_arith)
                requires
                    j >= first.len() * channels,
                    j == channels * frame + channel,
                    channel < channels,
                    channels > 0,
            ;
            assert(k == (frame - first.len()) * channels + channel) by (nonlinear_arith)
                requires
                    k == j - first.len() * channels,
                    j == channels * frame + channel,
            ;
            lemma_fundamental_div_mod_converse(k, channels as int, frame - first.len(), channel);
            assert(fanned_out(first, channels).len() == first.len() * channels);
            assert(parts[j] == fanned_out(second, channels)[k]);
            assert(fanned_out(second, channels)[k] == second[frame - first.len()]);
        }
    }
    assert(whole =~= parts);
}

/// What block-size independence asks of one call: producing the frames from
/// `start` to `end` over `under` in one call gives the samples, and leaves
/// the component, that producing them in two calls that meet at `mid` does.
pub open spec fn splits_cleanly<A: AudioComponent>(
    component: A,
    under: Seq<A::Sample>,
    start: AudioSampleIndex,
    mid: AudioSampleIndex,
    end: AudioSampleIndex,
) -> bool {
    start.0 < mid.0 < end.0 && under.len() == end.0 - start.0 ==> {
        let cut = mid.0 - start.0;
        &&& component.rendered(under, start) == component.rendered(under.take(cut), start)
            + component.played(start, mid).rendered(under.skip(cut), mid)
        &&& component.played(start, end) == component.played(start, mid).played(mid, end)
    }
}

/// Components of type `A` are agnostic to block size: no call changes the
/// length of its buffer, and every call splits cleanly at every frame.
pub open spec fn block_size_agnostic<A: AudioComponent>() -> bool {
    &&& forall|component: A, under: Seq<A::Sample>, start: AudioSampleIndex|
        under.len() > 0 ==> (#[trigger] component.rendered(under, start)).len() == under.len()
    &&& forall|
        component: A,
        under: Seq<A::Sample>,
        start: AudioSampleIndex,
        mid: AudioSampleIndex,
        end: AudioSampleIndex,
    | #[trigger] splits_cleanly(component, under, start, mid, end)
}

/// A mix has as many samples as the buffer it is mixed over.
pub proof fn lemma_mixed_length<A: AudioComponent>(
    audio: Seq<A>,
    under: Seq<A::Sample>,
    start: AudioSampleIndex,
)
    requires
        block_size_agnostic::<A>(),
        under.len() > 0,
    ensures
        mixed(audio, under, start).len() == under.len(),
    decreases audio.len(),
{
    if audio.len() > 0 {
        lemma_mixed_length(audio.drop_last(), under, start);
    }
}

/// Mixing the frames from `start` to `end` in one stretch gives the samples
/// of mixing them in two stretches that meet at `mid`.
pub proof fn lemma_mixed_splits<A: AudioComponent>(
    audio: Seq<A>,
    under: Seq<A::Sample>,
    start: AudioSampleIndex,
    mid: AudioSampleIndex,
    end: AudioSampleIndex,
)
    requires
        block_size_agnostic::<A>(),
        start.0 < mid.0 < end.0,
        under.len() == end.0 - start.0,
    ensures
        mixed(audio, under, start) == mixed(audio, under.take(mid.0 - start.0), start) + mixed(
            played_all(audio, start, mid),
            under.skip(mid.0 - start.0),
            mid,
        ),
        played_all(audio, start, end) == played_all(played_all(audio, start, mid), mid, end),
    decreases audio.len(),
{
    let cut = mid.0 - start.0;
    let left = under.take(cut);
    let right = under.skip(cut);
    let later = played_all(audio, start, mid);
    assert forall|i: int| 0 <= i < audio.len() implies audio[i].played(start, end) == audio[i].played(
        start,
        mid,
    ).played(mid, end) by {
        assert(splits_cleanly(audio[i], under, start, mid, end));
    }
    assert(played_all(audio, start, end) =~= played_all(later, mid, end));
    if audio.len() == 0 {
        assert(under =~= left + right);
    } else {
        let init = audio.drop_last();
        let last = audio.last();
        lemma_mixed_splits(init, under, start, mid, end);
        lemma_mixed_length(init, left, start);
        lemma_mixed_length(played_all(init, start, mid), right, mid);
        let below_left = mixed(init, left, start);
        let below_right = mixed(played_all(init, start, mid), right, mid);
        let below = mixed(init, under, start);
        assert(below == below_left + below_right);
        assert(below.take(cut) =~= below_left);
        assert(below.skip(cut) =~= below_right);
        assert(splits_cleanly(last, below, start, mid, end));
        assert(later.drop_last() =~= played_all(init, start, mid));
        assert(later.last() == last.played(start, mid));
    }
}

/// A session of `first + second` frames is the session of `first` frames
/// followed by the session of `second` frames that takes up where it ended.
pub proof fn lemma_session_splits<A: AudioComponent>(
    period: nat,
    silence: A::Sample,
    rig: Rig<A>,
    at: nat,
    first: nat,
    second: nat,
)
    requires
        period > 0,
        block_size_agnostic::<A>(),
        at + first + second <= u64::MAX,
    ensures
        session(period, silence, rig, at, first + second) == followed_by(
            session(period, silence, rig, at, first),
            session(
                period,
                silence,
                session(period, silence, rig, at, first).rig,
                at + first,
                second,
            ),
        ),
    decreases first,
{
    let whole = session(period, silence, rig, at, first + second);
    let head = session(period, silence, rig, at, first);
    let tail = session(period, silence, head.rig, at + first, second);
    let joined = followed_by(head, tail);
    if first == 0 {
        assert(joined.samples =~= whole.samples);
        assert(joined.ticks =~= whole.ticks);
    } else if second == 0 {
        assert(joined.samples =~= whole.samples);
        assert(joined.ticks =~= whole.ticks);
    } else {
        let space = room(period, at);
        if first >= space {
            let step = stretch(period, silence, rig, at, space);
            let next = (at + space) as nat;
            lemma_session_splits(period, silence, step.rig, next, (first - space) as nat, second);
            let middle = session(period, silence, step.rig, next, (first - space) as nat);
            assert(head == followed_by(step, middle));
            assert(whole == followed_by(
                step,
                session(period, silence, step.rig, next, (first + second - space) as nat),
            ));
            assert(joined.samples =~= whole.samples);
            assert(joined.ticks =~= whole.ticks);
        } else {
            let offset = at % period;
            let base = (at - offset) as nat;
            let quotient = at as int / period as int;
            lemma_fundamental_div_mod(at as int, period as int);
            assert(base == quotient * period + 0) by (nonlinear_arith)
                requires
                    at == period * quotient + offset,
                    base == at - offset,
            ;
            lemma_fundamental_div_mod_converse(base as int, period as int, quotient, 0);
            lemma_past_grid_point(base, offset + first, period);
            let mid = (at + first) as nat;
            assert(mid % period == offset + first);
            assert(room(period, mid) == space - first);
            let more = if second <= space - first {
                second
            } else {
                (space - first) as nat
            };
            let end = (mid + more) as nat;
            let one = stretch(period, silence, rig, at, first);
            let two = stretch(period, silence, one.rig, mid, more);
            let both = stretch(period, silence, rig, at, first + more);
            let tuned = if at % period == 0 {
                ticked(rig, at, period)
            } else {
                rig
            };
            lemma_mixed_splits(
                tuned.audio,
                silent(silence, first + more),
                audio_index(at),
                audio_index(mid),
                audio_index(end),
            );
            assert(silent(silence, first + more).take(first as int) =~= silent(silence, first));
            assert(silent(silence, first + more).skip(first as int) =~= silent(silence, more));
            assert(both.samples == one.samples + two.samples);
            assert(both.rig == two.rig);
            assert(both.ticks =~= one.ticks + two.ticks);
            let rest = session(period, silence, two.rig, end, (second - more) as nat);
            assert(session(period, silence, one.rig, mid, 0) == idle(one.rig));
            assert(head == followed_by(one, idle(one.rig)));
            assert(tail == followed_by(two, rest));
            assert(whole == followed_by(both, rest));
            assert(joined.samples =~= whole.samples);
            assert(joined.ticks =~= whole.ticks);
        }
    }
}

/// Block-size independence: producing a session block by block, whatever
/// the sizes of the blocks, gives the samples, the ticks and the rig of
/// producing all its frames at once.
pub proof fn lemma_driven_is_session<A: AudioComponent>(
    period: nat,
    silence: A::Sample,
    rig: Rig<A>,
    at: nat,
    blocks: Seq<nat>,
)
    requires
        period > 0,
        block_size_agnostic::<A>(),
        at + total_frames(blocks) <= u64::MAX,
    ensures
        driven(period, silence, rig, at, blocks) == session(
            period,
            silence,
            rig,
            at,
            total_frames(blocks),
        ),
    decreases blocks.len(),
{
    if blocks.len() > 0 {
        lemma_driven_is_session(period, silence, rig, at, blocks.drop_last());
        lemma_session_splits(
            period,
            silence,
            rig,
            at,
            total_frames(blocks.drop_last()),
            blocks.last(),
        );
    }
}

/// Determinism: two engines in the same configuration at the same position
/// are in the same state, and driving equal rigs with them through the same
/// blocks gives the same samples, the same ticks and the same rig.
pub proof fn lemma_deterministic<A: AudioComponent>(
    one: Engine,
    other: Engine,
    silence: A::Sample,
    other_silence: A::Sample,
    rig: Rig<A>,
    other_rig: Rig<A>,
    blocks: Seq<nat>,
)
    requires
        one.wf(),
        other.wf(),
        one.config() == other.config(),
        one.position() == other.position(),
        silence == other_silence,
        rig == other_rig,
    ensures
        one == other,
        driven(one.period(), silence, rig, one.position(), blocks) == driven(
            other.period(),
            other_silence,
            other_rig,
            other.position(),
            blocks,
        ),
{
    one.lemma_clock_determined(other);
}

/// Modulation grid: over a session of `frames` frames from the position
/// `at`, a tick is applied at exactly those positions of the session's frames
/// that are multiples of the period, once each and in ascending order.
pub proof fn lemma_ticks_on_grid<A: AudioComponent>(
    period: nat,
    silence: A::Sample,
    rig: Rig<A>,
    at: nat,
    frames: nat,
)
    requires
        period > 0,
    ensures
        forall|s: nat| #[trigger]
            session(period, silence, rig, at, frames).ticks.contains(s) <==> (at <= s < at
                + frames && s % period == 0),
        forall|i: int, j: int|
            0 <= i < j < session(period, silence, rig, at, frames).ticks.len() ==> session(
                period,
                silence,
                rig,
                at,
                frames,
            ).ticks[i] < session(period, silence, rig, at, frames).ticks[j],
    decreases frames,
{
    let ticks = session(period, silence, rig, at, frames).ticks;
    if frames == 0 {
        assert(ticks =~= Seq::<nat>::empty());
    } else {
        let count = if frames <= room(period, at) {
            frames
        } else {
            room(period, at)
        };
        let first = stretch(period, silence, rig, at, count);
        let rest = session(period, silence, first.rig, at + count, (frames - count) as nat);
        lemma_ticks_on_grid(period, silence, first.rig, at + count, (frames - count) as nat);
        assert(ticks == first.ticks + rest.ticks);
        assert forall|s: nat| #[trigger]
            ticks.contains(s) <==> (at <= s < at + frames && s % period == 0) by {
            if ticks.contains(s) {
                let i = choose|i: int| 0 <= i < ticks.len() && ticks[i] == s;
                if i < first.ticks.len() {
                    assert(s == at);
                } else {
                    assert(rest.ticks[i - first.ticks.len()] == s);
                    assert(rest.ticks.contains(s));
                }
            }
            if at <= s < at + frames && s % period == 0 {
                if s == at {
                    assert(first.ticks =~= seq![at]);
                    assert(ticks[0] == s);
                } else if s < at + count {
                    lemma_no_grid_point_within_room(period, at, s);
                } else {
                    assert(rest.ticks.contains(s));
                    let i = choose|i: int| 0 <= i < rest.ticks.len() && rest.ticks[i] == s;
                    assert(ticks[first.ticks.len() + i] == s);
                }
            }
        }
        assert forall|i: int, j: int| 0 <= i < j < ticks.len() implies ticks[i] < ticks[j] by {
            if i < first.ticks.len() {
                assert(ticks[i] == at);
                assert(rest.ticks[j - first.ticks.len()] == ticks[j]);
                assert(rest.ticks.contains(ticks[j]));
            } else {
                assert(rest.ticks[i - first.ticks.len()] == ticks[i]);
                assert(rest.ticks[j - first.ticks.len()] == ticks[j]);
            }
        }
    }
}

} // verus!
