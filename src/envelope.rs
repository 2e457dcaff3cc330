use vstd::prelude::*;

verus! {

/// An amplitude envelope as positions along a tone, in percent of its length:
/// attack end, decay length, sustain end, and release length. The release
/// runs from the sustain end to the end of the tone, so the last field only
/// records the intended shape.
pub struct Envelope(pub u32, pub u32, pub u32, pub u32);

/// The four parts of an envelope.
#[derive(PartialEq, Eq, Structural, Clone, Copy, Debug)]
pub enum Phase {
    Attack,
    Decay,
    Sustain,
    Release,
}

/// How one sample is reshaped: the phase it falls in, its position in percent
/// of the tone, and the gain in percent to apply.
#[derive(PartialEq, Eq, Structural, Clone, Copy, Debug)]
pub struct Shape {
    pub phase: Phase,
    pub position: u32,
    pub gain: u64,
}

/// The envelope that every tone is shaped with.
pub fn default_envelope() -> (r: Envelope)
    ensures
        r.0 == 5 && r.1 == 5 && r.2 == 80 && r.3 == 10,
{
    Envelope(5, 5, 80, 10)
}

/// Position of sample `i` in a tone of `len` samples, in whole percent
/// (rounded down).
pub open spec fn position_spec(i: nat, len: nat) -> nat {
    i * 100 / len
}

/// The phase of the position `p` (in percent). A position that falls on a
/// boundary between attack, decay and sustain counts as release.
pub open spec fn phase_spec(p: nat, e: Envelope) -> Phase {
    let a = e.0 as nat;
    let d = e.1 as nat;
    let s = e.2 as nat;
    if p < a {
        Phase::Attack
    } else if a < p && p < a + d {
        Phase::Decay
    } else if a + d < p && p < s {
        Phase::Sustain
    } else {
        Phase::Release
    }
}

/// The gain in percent at position `p` (below 100): rising with the position in
/// the attack, the larger of 70 and the rest of the decay in the decay, 70 in
/// the sustain, and falling to the end in the release.
pub open spec fn gain_spec(p: nat, e: Envelope) -> nat {
    match phase_spec(p, e) {
        Phase::Attack => p,
        Phase::Decay => {
            let rest = (e.0 + e.1 - p) as nat;
            if rest > 70 { rest } else { 70 }
        },
        Phase::Sustain => 70,
        Phase::Release => (100 - p) as nat,
    }
}

/// The shape of sample `i` in a tone of `len` samples.
pub open spec fn shape_spec(i: nat, len: nat, e: Envelope) -> Shape {
    let p = position_spec(i, len);
    Shape { phase: phase_spec(p, e), position: p as u32, gain: gain_spec(p, e) as u64 }
}

/// Position of sample `i` in a tone of `len` samples, in whole percent.
pub fn position_percent(i: usize, len: usize) -> (r: u32)
    requires
        i < len,
    ensures
        r == position_spec(i as nat, len as nat),
        r < 100,
{
    let q = (i as u128) * 100 / (len as u128);
    proof {
        assert((i as nat) * 100 / (len as nat) < 100) by (nonlinear_arith)
            requires i < len;
    }
    q as u32
}

/// The phase that the position `p` (in percent) falls in.
pub fn phase_at(p: u32, envelope: &Envelope) -> (r: Phase)
    ensures
        r == phase_spec(p as nat, *envelope),
{
    let a = envelope.0 as u64;
    let d = envelope.1 as u64;
    let s = envelope.2 as u64;
    let p = p as u64;
    if p < a {
        Phase::Attack
    } else if a < p && p < a + d {
        Phase::Decay
    } else if a + d < p && p < s {
        Phase::Sustain
    } else {
        Phase::Release
    }
}

/// The gain in percent at the position `p`, which lies below 100.
pub fn gain_percent(p: u32, envelope: &Envelope) -> (r: u64)
    requires
        p < 100,
    ensures
        r == gain_spec(p as nat, *envelope),
{
    match phase_at(p, envelope) {
        Phase::Attack => p as u64,
        Phase::Decay => {
            let rest = envelope.0 as u64 + envelope.1 as u64 - p as u64;
            if rest > 70 { rest } else { 70 }
        },
        Phase::Sustain => 70,
        Phase::Release => 100 - p as u64,
    }
}

/// How each sample of a tone of `len` samples is reshaped by `envelope`, in
/// sample order: exactly one shape per sample.
pub fn envelope_shape(len: usize, envelope: &Envelope) -> (r: Vec<Shape>)
    ensures
        r@.len() == len,
        forall|i: int| 0 <= i < len ==> #[trigger] r@[i] == shape_spec(i as nat, len as nat, *envelope),
{
    let mut out: Vec<Shape> = Vec::new();
    let mut i: usize = 0;
    while i < len
        invariant
            i <= len,
            out@.len() == i,
            forall|k: int| 0 <= k < i ==> #[trigger] out@[k] == shape_spec(k as nat, len as nat, *envelope),
        decreases len - i,
    {
        let p = position_percent(i, len);
        let s = Shape { phase: phase_at(p, envelope), position: p, gain: gain_percent(p, envelope) };
        out.push(s);
        i += 1;
    }
    out
}

/// An envelope whose decay spans at most the whole tone never amplifies: the
/// gain at every position of a tone is at most 100 percent.
pub proof fn gain_at_most_full(p: nat, e: Envelope)
    requires
        p < 100,
        e.1 <= 100,
    ensures
        gain_spec(p, e) <= 100,
{
}

} // verus!
