//! The integer side of voice: the open-mic gate, 20 ms frames, channel
//! upmixing and the bound on queued playback.

use vstd::prelude::*;

verus! {

/// Opus works at 48 kHz.
pub const SAMPLE_RATE: u32 = 48000;

/// 20 ms at 48 kHz.
pub const FRAME_SIZE: usize = 960;

/// Queued playback beyond one second per channel is cut back.
pub const MAX_PLAYBACK_BUF: usize = 48000;

/// How long open-mic transmission should continue after the level briefly
/// dips below the threshold: 12 × 20ms ~= 240ms, enough to avoid chopping
/// quiet syllables/word middles without leaving the mic open for too long.
pub const GATE_HANGOVER_FRAMES: usize = 12;

/// How long a peer counts as talking after its last voice packet.
pub const PEER_TALKING_MS: u128 = 300;

/// Whether the microphone is captured at all: unmuted, and in push-to-talk
/// mode only while the key is held.
pub fn capture_active(enabled: bool, use_ptt: bool, ptt_held: bool) -> (r: bool)
    ensures
        r == (enabled && (!use_ptt || ptt_held)),
{
    enabled && (!use_ptt || ptt_held)
}

/// The open-mic gate for one frame: a loud frame transmits and re-arms the
/// hangover; a quiet one transmits while hangover frames remain.
pub open spec fn gate_spec(hold: nat, loud: bool) -> (bool, nat) {
    if loud {
        (true, GATE_HANGOVER_FRAMES as nat)
    } else if hold > 0 {
        (true, (hold - 1) as nat)
    } else {
        (false, 0)
    }
}

/// Whether a frame is sent, and the hangover left after it. In push-to-talk
/// mode every captured frame is sent and the hangover stays as it was.
pub fn frame_transmits(ptt_mode: bool, loud: bool, hold: usize) -> (r: (bool, usize))
    ensures
        ptt_mode ==> r == (true, hold),
        !ptt_mode ==> r.0 == gate_spec(hold as nat, loud).0 && r.1 as nat == gate_spec(
            hold as nat,
            loud,
        ).1,
{
    if ptt_mode {
        (true, hold)
    } else if loud {
        (true, GATE_HANGOVER_FRAMES)
    } else if hold > 0 {
        (true, hold - 1)
    } else {
        (false, 0)
    }
}

/// The open-mic gating of a run of frames: which of them are sent.
pub open spec fn gate_run(hold: nat, louds: Seq<bool>) -> Seq<bool>
    decreases louds.len(),
{
    if louds.len() == 0 {
        Seq::empty()
    } else {
        let (t, h) = gate_spec(hold, louds[0]);
        seq![t] + gate_run(h, louds.drop_first())
    }
}

proof fn lemma_quiet_run(hold: nat, k: nat, j: int)
    requires
        0 <= j < k,
    ensures
        gate_run(hold, Seq::new(k, |i: int| false)).len() == k,
        gate_run(hold, Seq::new(k, |i: int| false))[j] == (j < hold),
    decreases k,
{
    let q = Seq::new(k, |i: int| false);
    assert(q.drop_first() =~= Seq::new((k - 1) as nat, |i: int| false));
    let h = if hold > 0 {
        (hold - 1) as nat
    } else {
        0
    };
    assert(q[0] == false);
    assert(gate_spec(hold, false) == ((hold > 0), h));
    assert(gate_run(hold, q) == seq![hold > 0] + gate_run(h, q.drop_first()));
    if k > 1 {
        if j > 0 {
            lemma_quiet_run(h, (k - 1) as nat, j - 1);
        } else {
            lemma_quiet_run(h, (k - 1) as nat, 0);
        }
    } else {
        assert(Seq::new((k - 1) as nat, |i: int| false) =~= Seq::<bool>::empty());
    }
}

/// After a loud frame, the next twelve quiet frames are still sent and the
/// thirteenth is not.
pub proof fn lemma_gate_hangover(hold: nat, quiet: nat)
    ensures
        ({
            let run = gate_run(hold, seq![true] + Seq::new(quiet, |i: int| false));
            &&& run.len() == quiet + 1
            &&& run[0]
            &&& forall|j: int| 1 <= j <= quiet ==> run[j] == (j <= GATE_HANGOVER_FRAMES)
        }),
{
    let louds = seq![true] + Seq::new(quiet, |i: int| false);
    assert(louds.drop_first() =~= Seq::new(quiet, |i: int| false));
    assert(louds[0]);
    let rest = gate_run(GATE_HANGOVER_FRAMES as nat, Seq::new(quiet, |i: int| false));
    if quiet > 0 {
        lemma_quiet_run(GATE_HANGOVER_FRAMES as nat, quiet, 0);
    } else {
        assert(Seq::new(quiet, |i: int| false) =~= Seq::<bool>::empty());
    }
    assert forall|j: int| 1 <= j <= quiet implies gate_run(hold, louds)[j] == (j <= GATE_HANGOVER_FRAMES) by {
        lemma_quiet_run(GATE_HANGOVER_FRAMES as nat, quiet, j - 1);
    }
}

/// Whether the open-mic gate sends frame `j` of a run that starts with
/// `hold` hangover frames left: the frame is loud, or comes at most
/// `GATE_HANGOVER_FRAMES` frames after a loud one, or falls within the
/// starting hangover with no loud frame before it.
pub open spec fn gate_sends(hold: nat, louds: Seq<bool>, j: int) -> bool {
    ||| louds[j]
    ||| exists|k: int| 0 <= k < j && #[trigger] louds[k] && j - k <= GATE_HANGOVER_FRAMES
    ||| (j < hold && forall|k: int| 0 <= k < j ==> !#[trigger] louds[k])
}

/// The open-mic gate over any run of frames: a frame is sent exactly when it
/// is loud or lies within the hangover after the last loud frame (or within
/// the starting hangover, before any loud frame).
pub proof fn lemma_gate_law(hold: nat, louds: Seq<bool>)
    ensures
        gate_run(hold, louds).len() == louds.len(),
        forall|j: int| 0 <= j < louds.len() ==> #[trigger] gate_run(hold, louds)[j] == gate_sends(hold, louds, j),
    decreases louds.len(),
{
    if louds.len() > 0 {
        let (t, h) = gate_spec(hold, louds[0]);
        let rest = louds.drop_first();
        lemma_gate_law(h, rest);
        let run = gate_run(hold, louds);
        assert(run == seq![t] + gate_run(h, rest));
        assert forall|j: int| 0 <= j < louds.len() implies #[trigger] gate_run(hold, louds)[j] == gate_sends(hold, louds, j) by {
            if j == 0 {
                assert(run[0] == t);
            } else {
                assert(run[j] == gate_run(h, rest)[j - 1]);
                assert(gate_run(h, rest)[j - 1] == gate_sends(h, rest, j - 1));
                assert(rest[j - 1] == louds[j]);
                // a loud frame before j in `louds` is one before j - 1 in `rest`, or the first
                if exists|k: int| 0 <= k < j && #[trigger] louds[k] && j - k <= GATE_HANGOVER_FRAMES {
                    let k = choose|k: int| 0 <= k < j && #[trigger] louds[k] && j - k <= GATE_HANGOVER_FRAMES;
                    if k > 0 {
                        assert(rest[k - 1] == louds[k]);
                    } else {
                        if !(exists|k2: int| 0 <= k2 < j - 1 && #[trigger] rest[k2] && j - 1 - k2 <= GATE_HANGOVER_FRAMES) {
                            assert forall|k2: int| 0 <= k2 < j - 1 implies !#[trigger] rest[k2] by {
                                assert(rest[k2] == louds[k2 + 1]);
                            }
                        }
                    }
                }
                if exists|k2: int| 0 <= k2 < j - 1 && #[trigger] rest[k2] && j - 1 - k2 <= GATE_HANGOVER_FRAMES {
                    let k2 = choose|k2: int| 0 <= k2 < j - 1 && #[trigger] rest[k2] && j - 1 - k2 <= GATE_HANGOVER_FRAMES;
                    assert(louds[k2 + 1] == rest[k2]);
                }
                if forall|k2: int| 0 <= k2 < j - 1 ==> !#[trigger] rest[k2] {
                    assert forall|k: int| 1 <= k < j implies !#[trigger] louds[k] by {
                        assert(rest[k - 1] == louds[k]);
                    }
                }
                if forall|k: int| 0 <= k < j ==> !#[trigger] louds[k] {
                    assert forall|k2: int| 0 <= k2 < j - 1 implies !#[trigger] rest[k2] by {
                        assert(rest[k2] == louds[k2 + 1]);
                    }
                    assert(!louds[0]);
                }
            }
        }
    }
}

/// How many queued playback samples to drop before playing: when more than
/// one second per channel is queued, cut back to half a second.
pub fn playback_trim(queued: usize, channels: u16) -> (r: usize)
    ensures
        queued > MAX_PLAYBACK_BUF * channels ==> r == queued - (MAX_PLAYBACK_BUF * channels) / 2,
        queued <= MAX_PLAYBACK_BUF * channels ==> r == 0,
{
    let max_buf: u64 = MAX_PLAYBACK_BUF as u64 * channels as u64;
    if queued as u64 > max_buf {
        (queued as u64 - max_buf / 2) as usize
    } else {
        0
    }
}

/// Whether a peer still counts as talking `elapsed_ms` after its last voice
/// packet.
pub fn peer_talking(elapsed_ms: u128) -> (r: bool)
    ensures
        r == (elapsed_ms < PEER_TALKING_MS),
{
    elapsed_ms < PEER_TALKING_MS
}

/// Each sample repeated once per output channel.
pub open spec fn upmix_spec<T>(s: Seq<T>, channels: nat) -> Seq<T>
    decreases s.len(),
{
    if s.len() == 0 {
        Seq::empty()
    } else {
        upmix_spec(s.drop_last(), channels) + Seq::new(channels, |i: int| s.last())
    }
}

/// Mono samples spread to every output channel (interleaved).
pub fn upmix<T: Copy>(samples: &[T], channels: u16) -> (r: Vec<T>)
    ensures
        r@ == upmix_spec(samples@, channels as nat),
{
    let mut out: Vec<T> = Vec::new();
    let mut i: usize = 0;
    while i < samples.len()
        invariant
            i <= samples@.len(),
            out@ == upmix_spec(samples@.take(i as int), channels as nat),
        decreases samples@.len() - i,
    {
        let s = samples[i];
        let ghost before = out@;
        let mut c: u16 = 0;
        while c < channels
            invariant
                c <= channels,
                out@ == before + Seq::new(c as nat, |j: int| s),
            decreases channels - c,
        {
            out.push(s);
            c = c + 1;
            assert(out@ =~= before + Seq::new(c as nat, |j: int| s));
        }
        proof {
            assert(samples@.take(i + 1).drop_last() =~= samples@.take(i as int));
            assert(samples@.take(i + 1).last() == s);
        }
        i = i + 1;
    }
    assert(samples@.take(i as int) =~= samples@);
    out
}

/// Takes every whole frame of `frame_len` samples off the front of `buf`,
/// leaving the incomplete rest.
pub fn drain_frames<T: Copy>(buf: &mut Vec<T>, frame_len: usize) -> (r: Vec<Vec<T>>)
    requires
        frame_len > 0,
    ensures
        final(buf)@.len() < frame_len,
        r@.len() * frame_len + final(buf)@.len() == old(buf)@.len(),
        forall|k: int| 0 <= k < r@.len() ==> (#[trigger] r@[k])@ == old(buf)@.subrange(
            k * frame_len,
            (k + 1) * frame_len,
        ),
        final(buf)@ == old(buf)@.subrange(r@.len() * frame_len, old(buf)@.len() as int),
{
    let ghost orig = buf@;
    let n = buf.len();
    let mut frames: Vec<Vec<T>> = Vec::new();
    let mut start: usize = 0;
    assert(0 * frame_len == 0) by (nonlinear_arith);
    while n - start >= frame_len
        invariant
            frame_len > 0,
            n == buf@.len(),
            buf@ == orig,
            start <= buf@.len(),
            start == frames@.len() * frame_len,
            forall|k: int| 0 <= k < frames@.len() ==> (#[trigger] frames@[k])@ == orig.subrange(
                k * frame_len,
                (k + 1) * frame_len,
            ),
        decreases buf@.len() - start,
    {
        let mut frame: Vec<T> = Vec::new();
        let mut j: usize = 0;
        while j < frame_len
            invariant
                buf@ == orig,
                n == buf@.len(),
                start + frame_len <= n,
                j <= frame_len,
                frame@ == orig.subrange(start as int, start + j),
            decreases frame_len - j,
        {
            frame.push(buf[start + j]);
            j = j + 1;
            assert(frame@ =~= orig.subrange(start as int, start + j));
        }
        proof {
            assert((frames@.len() + 1) * frame_len == frames@.len() * frame_len + frame_len) by (nonlinear_arith);
        }
        frames.push(frame);
        start = start + frame_len;
    }
    let mut rest: Vec<T> = Vec::new();
    let mut j: usize = start;
    while j < n
        invariant
            n == buf@.len(),
            buf@ == orig,
            start <= j <= buf@.len(),
            rest@ == orig.subrange(start as int, j as int),
        decreases buf@.len() - j,
    {
        rest.push(buf[j]);
        j = j + 1;
        assert(rest@ =~= orig.subrange(start as int, j as int));
    }
    *buf = rest;
    frames
}

} // verus!
