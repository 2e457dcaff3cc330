use vstd::prelude::*;

use crate::pitch::{is_pitch_order, pitch_index, pitch_keys};
use crate::text::{cleaned, cleaned_lines, cleaned_lines_of, count_nonempty_cleaned, split_lines};

verus! {

/// Samples per second of the rendered stream.
pub const SAMPLE_RATE: u64 = 48000;

/// Each tone is rendered with twice the samples its duration calls for.
pub const OVERSAMPLING: u64 = 2;

/// A line of `n` characters lasts `n / DURATION_SCALE` seconds.
pub const DURATION_SCALE: u64 = 88;

/// The shortest rendering window is `1 / MIN_TONE_FRACTION` seconds (0.2 s).
pub const MIN_TONE_FRACTION: u64 = 5;

/// How many samples the oscillator renders for a line of `n` cleaned
/// characters: `SAMPLE_RATE * max(n / DURATION_SCALE, 1 / MIN_TONE_FRACTION)
/// * OVERSAMPLING`, rounded down and saturated at `u32::MAX`.
pub open spec fn tone_len(n: nat) -> nat {
    let rate = (SAMPLE_RATE * OVERSAMPLING) as nat;
    let exact: nat = if n * (MIN_TONE_FRACTION as nat) < DURATION_SCALE as nat {
        rate / (MIN_TONE_FRACTION as nat)
    } else {
        rate * n / (DURATION_SCALE as nat)
    };
    if exact > u32::MAX { u32::MAX as nat } else { exact }
}

/// The number of samples rendered for a line of `char_count` cleaned characters.
pub fn tone_length(char_count: usize) -> (r: u32)
    ensures
        r == tone_len(char_count as nat),
{
    let n = char_count as u64;
    // Past four million characters the count is beyond `u32::MAX` in any case.
    if n > 4_000_000 {
        proof {
            assert(96000 * (n as nat) / 88 > u32::MAX) by (nonlinear_arith)
                requires n > 4_000_000;
        }
        u32::MAX
    } else if n * MIN_TONE_FRACTION < DURATION_SCALE {
        (SAMPLE_RATE * OVERSAMPLING / MIN_TONE_FRACTION) as u32
    } else {
        let exact = SAMPLE_RATE * OVERSAMPLING * n / DURATION_SCALE;
        if exact > u32::MAX as u64 { u32::MAX } else { exact as u32 }
    }
}

/// One line's tone: the pitch position of each of its cleaned characters, in
/// order, and how many samples it is rendered with.
pub struct Tone {
    pub pitches: Vec<usize>,
    pub sample_count: u32,
}

/// `t` is the tone of the cleaned line `line` under the pitch order `keys`.
pub open spec fn is_tone_of(keys: Seq<char>, line: Seq<char>, t: Tone) -> bool {
    &&& t.pitches@.len() == line.len()
    &&& forall|j: int|
        0 <= j < line.len() ==> #[trigger] t.pitches@[j] < keys.len() && keys[t.pitches@[j] as int]
            == line[j]
    &&& t.sample_count == tone_len(line.len())
}

/// `tones` holds, in order, the tone of each line of `lines` under `keys`.
pub open spec fn are_tones_of(keys: Seq<char>, lines: Seq<Seq<char>>, tones: Seq<Tone>) -> bool {
    &&& tones.len() == lines.len()
    &&& forall|i: int| 0 <= i < tones.len() ==> #[trigger] is_tone_of(keys, lines[i], tones[i])
}

/// The tone of one cleaned line, or the first of its characters that `keys`
/// lacks.
pub fn line_tone(keys: &Vec<char>, line: &Vec<char>) -> (r: Result<Tone, char>)
    ensures
        match r {
            Ok(t) => is_tone_of(keys@, line@, t),
            Err(c) => line@.contains(c) && !keys@.contains(c),
        },
        r is Ok <==> forall|c: char| line@.contains(c) ==> keys@.contains(c),
{
    let mut pitches: Vec<usize> = Vec::new();
    let mut j: usize = 0;
    while j < line.len()
        invariant
            j <= line.len(),
            pitches@.len() == j,
            forall|k: int|
                0 <= k < j ==> #[trigger] pitches@[k] < keys@.len() && keys@[pitches@[k] as int]
                    == line@[k],
        decreases line.len() - j,
    {
        let c = line[j];
        match pitch_index(keys, c) {
            Some(i) => {
                pitches.push(i);
            },
            None => {
                proof {
                    assert(line@[j as int] == c);
                }
                return Err(c);
            },
        }
        j += 1;
    }
    proof {
        assert forall|c: char| line@.contains(c) implies keys@.contains(c) by {
            let k = choose|k: int| 0 <= k < line@.len() && line@[k] == c;
            assert(keys@[pitches@[k] as int] == c);
        }
    }
    Ok(Tone { pitches, sample_count: tone_length(line.len()) })
}

/// The line profile of `source_code` under the pitch order `keys`: one tone
/// per line that is not empty once cleaned, in line order. Fails with a
/// character of the cleaned text that `keys` lacks, if there is one.
pub fn profile_lines(source_code: &str, keys: &Vec<char>) -> (r: Result<Vec<Tone>, char>)
    ensures
        match r {
            Ok(tones) => are_tones_of(keys@, cleaned_lines_of(source_code@), tones@),
            Err(c) => cleaned(source_code@).contains(c) && !keys@.contains(c),
        },
        (forall|c: char| cleaned(source_code@).contains(c) ==> keys@.contains(c)) ==> r is Ok,
{
    let lines = cleaned_lines(source_code);
    let ghost q = cleaned_lines_of(source_code@);
    let mut tones: Vec<Tone> = Vec::new();
    let mut i: usize = 0;
    while i < lines.len()
        invariant
            i <= lines.len(),
            lines@.len() == q.len(),
            forall|k: int| 0 <= k < lines@.len() ==> #[trigger] lines@[k]@ == q[k],
            forall|k: int, c: char|
                0 <= k < lines@.len() && #[trigger] lines@[k]@.contains(c) ==> cleaned(
                    source_code@,
                ).contains(c),
            tones@.len() == i,
            forall|k: int| 0 <= k < i ==> #[trigger] is_tone_of(keys@, q[k], tones@[k]),
        decreases lines.len() - i,
    {
        match line_tone(keys, &lines[i]) {
            Ok(t) => {
                tones.push(t);
            },
            Err(c) => {
                proof {
                    assert(lines@[i as int]@.contains(c));
                }
                return Err(c);
            },
        }
        i += 1;
    }
    Ok(tones)
}

/// The whole plan of a text: its pitch order, then one tone per line that is
/// not empty once cleaned, in line order.
pub fn tone_plan(source_code: &str) -> (r: Vec<Tone>)
    ensures
        exists|keys: Seq<char>|
            is_pitch_order(source_code@, keys) && are_tones_of(
                keys,
                cleaned_lines_of(source_code@),
                r@,
            ),
        forall|keys: Seq<char>|
            is_pitch_order(source_code@, keys) ==> are_tones_of(
                keys,
                cleaned_lines_of(source_code@),
                r@,
            ),
{
    let keys = pitch_keys(source_code);
    match profile_lines(source_code, &keys) {
        Ok(tones) => {
            proof {
                assert forall|k: Seq<char>| is_pitch_order(source_code@, k) implies are_tones_of(
                    k,
                    cleaned_lines_of(source_code@),
                    tones@,
                ) by {
                    crate::pitch::pitch_order_is_unique(source_code@, k, keys@);
                }
            }
            tones
        },
        Err(_) => Vec::new(),
    }
}

/// The line profile has one entry for each line whose cleaned form is not
/// empty, and none for the others.
pub proof fn profile_counts_qualifying_lines(text: Seq<char>, keys: Seq<char>, tones: Seq<Tone>)
    requires
        are_tones_of(keys, cleaned_lines_of(text), tones),
    ensures
        tones.len() == count_nonempty_cleaned(split_lines(text)),
{
    crate::text::cleaned_lines_count(split_lines(text));
}

} // verus!
