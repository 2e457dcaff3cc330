use soundify::envelope::{
    default_envelope, envelope_shape, gain_percent, phase_at, position_percent, Envelope, Phase,
    Shape,
};
use soundify::pitch::{dedup, pitch_index, pitch_keys};
use soundify::text::{clean_source, cleaned_lines};
use soundify::tone::{line_tone, profile_lines, tone_length, tone_plan};

#[test]
fn clean_lowercases_and_filters() {
    assert_eq!(clean_source("Hello, World!\n\t"), "hello,world!".chars().collect::<Vec<char>>());
    assert_eq!(clean_source(""), Vec::<char>::new());
    assert_eq!(clean_source(" \t\r\n"), Vec::<char>::new());
    // Only ASCII letters are lower-cased; other alphanumerics are kept as they are.
    assert_eq!(clean_source("Éé7"), vec!['É', 'é', '7']);
    // Symbols outside ASCII punctuation are dropped.
    assert_eq!(clean_source("a→b€"), vec!['a', 'b']);
}

#[test]
fn dedup_keeps_first_occurrences() {
    let mut v = vec!['b', 'a', 'b', 'c', 'a'];
    dedup(&mut v);
    assert_eq!(v, vec!['b', 'a', 'c']);
    let mut e: Vec<char> = Vec::new();
    dedup(&mut e);
    assert!(e.is_empty());
}

#[test]
fn pitch_keys_are_sorted_and_distinct() {
    assert_eq!(pitch_keys("cab\nBAC"), vec!['a', 'b', 'c']);
    assert_eq!(pitch_keys("z!1Z"), vec!['!', '1', 'z']);
}

#[test]
fn pitch_keys_are_deterministic() {
    let text = "fn main() {\n    println!(\"Hi\");\n}\n";
    assert_eq!(pitch_keys(text), pitch_keys(text));
}

#[test]
fn pitch_keys_hold_no_whitespace() {
    let keys = pitch_keys("A b\tC\r\n d\u{3000}e");
    assert_eq!(keys, vec!['a', 'b', 'c', 'd', 'e']);
    for k in keys {
        assert!(k.is_alphanumeric() || k.is_ascii_punctuation());
        assert!(!k.is_whitespace());
    }
}

#[test]
fn pitch_index_finds_position() {
    let keys = vec!['a', 'b', 'q'];
    assert_eq!(pitch_index(&keys, 'q'), Some(2));
    assert_eq!(pitch_index(&keys, 'a'), Some(0));
    assert_eq!(pitch_index(&keys, 'c'), None);
}

#[test]
fn scenario_two_characters() {
    let keys = pitch_keys("Ab");
    assert_eq!(keys, vec!['a', 'b']);
    assert_eq!(pitch_index(&keys, 'a'), Some(0));
    assert_eq!(pitch_index(&keys, 'b'), Some(1));
    let tones = tone_plan("Ab");
    assert_eq!(tones.len(), 1);
    assert_eq!(tones[0].pitches, vec![0, 1]);
    // Two characters last 2/88 s, below the 0.2 s floor.
    assert_eq!(tones[0].sample_count, 19200);
}

#[test]
fn scenario_empty_text() {
    assert!(pitch_keys("").is_empty());
    assert!(cleaned_lines("").is_empty());
    assert!(tone_plan("").is_empty());
}

#[test]
fn scenario_blank_line() {
    assert!(cleaned_lines("\n").is_empty());
    assert!(tone_plan("\n").is_empty());
}

#[test]
fn scenario_repeated_character() {
    let keys = pitch_keys("aaaa");
    assert_eq!(keys, vec!['a']);
    let tones = tone_plan("aaaa");
    assert_eq!(tones.len(), 1);
    assert_eq!(tones[0].pitches, vec![0, 0, 0, 0]);
    assert_eq!(tones[0].sample_count, 19200);
    let shape = envelope_shape(19200, &default_envelope());
    assert_eq!(shape.len(), 19200);
}

#[test]
fn profile_skips_lines_empty_after_cleaning() {
    let text = "ab\n  \n\n!!\n\t\nc";
    let lines = cleaned_lines(text);
    assert_eq!(lines, vec![vec!['a', 'b'], vec!['!', '!'], vec!['c']]);
    let tones = tone_plan(text);
    assert_eq!(tones.len(), 3);
    // keys: '!', 'a', 'b', 'c'
    assert_eq!(tones[0].pitches, vec![1, 2]);
    assert_eq!(tones[1].pitches, vec![0, 0]);
    assert_eq!(tones[2].pitches, vec![3]);
}

#[test]
fn profile_keeps_line_order() {
    let tones = tone_plan("b\na\nb");
    let firsts: Vec<usize> = tones.iter().map(|t| t.pitches[0]).collect();
    assert_eq!(firsts, vec![1, 0, 1]);
}

#[test]
fn profile_reports_unknown_character() {
    let keys = vec!['a'];
    match profile_lines("a\nab", &keys) {
        Err(c) => assert_eq!(c, 'b'),
        Ok(_) => panic!("expected an unknown character"),
    }
    assert!(profile_lines("A\na", &keys).is_ok());
    match line_tone(&keys, &vec!['a', 'x']) {
        Err(c) => assert_eq!(c, 'x'),
        Ok(_) => panic!("expected an unknown character"),
    }
}

#[test]
fn tone_length_floors_and_scales() {
    assert_eq!(tone_length(0), 19200);
    assert_eq!(tone_length(4), 19200);
    assert_eq!(tone_length(17), 19200);
    // 18 / 88 s is above the floor: 96000 * 18 / 88 = 19636.36...
    assert_eq!(tone_length(18), 19636);
    assert_eq!(tone_length(88), 96000);
    assert_eq!(tone_length(3_937_053), 4_294_966_909);
    assert_eq!(tone_length(3_937_054), u32::MAX);
    assert_eq!(tone_length(usize::MAX), u32::MAX);
}

#[test]
fn line_length_sets_sample_count() {
    let line = "x".repeat(44);
    let tones = tone_plan(&line);
    assert_eq!(tones[0].sample_count, 48000);
    assert_eq!(tones[0].pitches.len(), 44);
}

#[test]
fn position_truncates() {
    assert_eq!(position_percent(0, 7), 0);
    assert_eq!(position_percent(3, 7), 42);
    assert_eq!(position_percent(6, 7), 85);
    assert_eq!(position_percent(usize::MAX - 1, usize::MAX), 99);
}

#[test]
fn phases_of_default_envelope() {
    let e = default_envelope();
    assert_eq!((e.0, e.1, e.2, e.3), (5, 5, 80, 10));
    assert_eq!(phase_at(0, &e), Phase::Attack);
    assert_eq!(phase_at(4, &e), Phase::Attack);
    // Boundaries fall through to release.
    assert_eq!(phase_at(5, &e), Phase::Release);
    assert_eq!(phase_at(6, &e), Phase::Decay);
    assert_eq!(phase_at(10, &e), Phase::Release);
    assert_eq!(phase_at(11, &e), Phase::Sustain);
    assert_eq!(phase_at(79, &e), Phase::Sustain);
    assert_eq!(phase_at(80, &e), Phase::Release);
    assert_eq!(phase_at(99, &e), Phase::Release);
}

#[test]
fn gains_of_default_envelope() {
    let e = default_envelope();
    assert_eq!(gain_percent(3, &e), 3);
    assert_eq!(gain_percent(5, &e), 95);
    assert_eq!(gain_percent(7, &e), 70);
    assert_eq!(gain_percent(50, &e), 70);
    assert_eq!(gain_percent(80, &e), 20);
    assert_eq!(gain_percent(99, &e), 1);
}

#[test]
fn long_decay_gain() {
    let e = Envelope(10, 90, 95, 5);
    assert_eq!(phase_at(20, &e), Phase::Decay);
    assert_eq!(gain_percent(20, &e), 80);
    assert_eq!(gain_percent(50, &e), 70);
}

#[test]
fn gain_never_above_full() {
    let e = default_envelope();
    for p in 0..100u32 {
        assert!(gain_percent(p, &e) <= 100);
    }
}

#[test]
fn envelope_shape_has_tone_length() {
    let e = default_envelope();
    assert!(envelope_shape(0, &e).is_empty());
    let s = envelope_shape(20, &e);
    assert_eq!(s.len(), 20);
    assert_eq!(s[0], Shape { phase: Phase::Attack, position: 0, gain: 0 });
    assert_eq!(s[1], Shape { phase: Phase::Release, position: 5, gain: 95 });
    assert_eq!(s[2], Shape { phase: Phase::Release, position: 10, gain: 90 });
    assert_eq!(s[3], Shape { phase: Phase::Sustain, position: 15, gain: 70 });
    assert_eq!(s[19], Shape { phase: Phase::Release, position: 95, gain: 5 });
}
