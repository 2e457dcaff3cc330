use vstd::prelude::*;
use vstd::seq_lib::lemma_sorted_unique;

use crate::text::{ascii_punctuation, clean_source, cleaned, kept};

verus! {

broadcast use vstd::seq_lib::group_to_multiset_ensures;

/// The characters of `s` at their first occurrence, in order.
pub open spec fn first_occurrences(s: Seq<char>) -> Seq<char>
    decreases s.len(),
{
    if s.len() == 0 {
        seq![]
    } else {
        let rest = first_occurrences(s.drop_last());
        if s.drop_last().contains(s.last()) { rest } else { rest.push(s.last()) }
    }
}

/// Each character at most once, in ascending code-point order.
pub open spec fn strictly_ascending(s: Seq<char>) -> bool {
    forall|i: int, j: int| 0 <= i < j < s.len() ==> s[i] < s[j]
}

/// `keys` is the pitch order of `text`: the distinct characters of the cleaned
/// text, ascending. A character's position in it is its quarter-tone offset
/// from the reference pitch.
pub open spec fn is_pitch_order(text: Seq<char>, keys: Seq<char>) -> bool {
    &&& strictly_ascending(keys)
    &&& forall|c: char| keys.contains(c) <==> cleaned(text).contains(c)
}

proof fn lemma_first_occurrences(s: Seq<char>)
    ensures
        first_occurrences(s).no_duplicates(),
        forall|c: char| first_occurrences(s).contains(c) <==> s.contains(c),
    decreases s.len(),
{
    if s.len() > 0 {
        let p = s.drop_last();
        lemma_first_occurrences(p);
        assert(s == p.push(s.last()));
        assert forall|c: char| s.contains(c) <==> (p.contains(c) || c == s.last()) by {
            if s.contains(c) {
                let i = choose|i: int| 0 <= i < s.len() && s[i] == c;
                if i < p.len() {
                    assert(p[i] == c);
                }
            }
            if c == s.last() {
                assert(s[s.len() - 1] == c);
            }
            if p.contains(c) {
                let i = choose|i: int| 0 <= i < p.len() && p[i] == c;
                assert(s[i] == c);
            }
        }
        let r = first_occurrences(p);
        if !p.contains(s.last()) {
            let q = r.push(s.last());
            assert forall|c: char| q.contains(c) <==> (r.contains(c) || c == s.last()) by {
                if q.contains(c) {
                    let i = choose|i: int| 0 <= i < q.len() && q[i] == c;
                    if i < r.len() {
                        assert(r[i] == c);
                    }
                }
                if c == s.last() {
                    assert(q[q.len() - 1] == c);
                }
                if r.contains(c) {
                    let i = choose|i: int| 0 <= i < r.len() && r[i] == c;
                    assert(q[i] == c);
                }
            }
            assert forall|i: int, j: int|
                0 <= i < q.len() && 0 <= j < q.len() && i != j implies q[i] != q[j] by {
                if i == r.len() {
                    assert(r.contains(q[j]));
                } else if j == r.len() {
                    assert(r.contains(q[i]));
                }
            }
        }
    }
}

fn contains_char(v: &Vec<char>, c: char) -> (r: bool)
    ensures
        r == v@.contains(c),
{
    let mut i: usize = 0;
    while i < v.len()
        invariant
            i <= v.len(),
            forall|j: int| 0 <= j < i ==> v@[j] != c,
        decreases v.len() - i,
    {
        if v[i] == c {
            return true;
        }
        i += 1;
    }
    false
}

/// Removes repeated characters, keeping the first occurrence of each in place.
pub fn dedup(source: &mut Vec<char>)
    ensures
        final(source)@ == first_occurrences(old(source)@),
{
    let mut out: Vec<char> = Vec::new();
    let mut i: usize = 0;
    while i < source.len()
        invariant
            i <= source.len(),
            source@ == old(source)@,
            out@ == first_occurrences(source@.take(i as int)),
        decreases source.len() - i,
    {
        let c = source[i];
        proof {
            lemma_first_occurrences(source@.take(i as int));
            assert(source@.take(i + 1).drop_last() == source@.take(i as int));
        }
        if !contains_char(&out, c) {
            out.push(c);
        }
        i += 1;
    }
    proof {
        assert(source@.take(source@.len() as int) == source@);
    }
    *source = out;
}

/// Relies on `slice::sort`: the result holds the same characters, in ascending
/// order.
#[verifier::external_body]
fn sort_chars(v: &mut Vec<char>)
    ensures
        final(v)@.to_multiset() == old(v)@.to_multiset(),
        forall|i: int, j: int| 0 <= i < j < final(v)@.len() ==> final(v)@[i] <= final(v)@[j],
{
    v.sort();
}

/// The distinct cleaned characters of `source_code`, in ascending order; the
/// character at position `i` sounds `i` quarter-tones above the reference pitch.
pub fn pitch_keys(source_code: &str) -> (r: Vec<char>)
    ensures
        is_pitch_order(source_code@, r@),
{
    let mut characters = clean_source(source_code);
    let ghost all = characters@;
    dedup(&mut characters);
    let ghost distinct = characters@;
    proof {
        lemma_first_occurrences(all);
        distinct.lemma_multiset_has_no_duplicates();
    }
    sort_chars(&mut characters);
    proof {
        let s = characters@;
        assert forall|c: char| s.contains(c) <==> distinct.contains(c) by {
            assert(s.to_multiset().count(c) == distinct.to_multiset().count(c));
        }
        s.lemma_multiset_has_no_duplicates_conv();
        assert forall|i: int, j: int| 0 <= i < j < s.len() implies s[i] < s[j] by {
            assert(s[i] != s[j]);
        }
    }
    characters
}

/// Where `c` stands in `keys`, if it does.
pub fn pitch_index(keys: &Vec<char>, c: char) -> (r: Option<usize>)
    ensures
        match r {
            Some(i) => i < keys@.len() && keys@[i as int] == c,
            None => !keys@.contains(c),
        },
{
    let mut i: usize = 0;
    while i < keys.len()
        invariant
            i <= keys.len(),
            forall|j: int| 0 <= j < i ==> keys@[j] != c,
        decreases keys.len() - i,
    {
        if keys[i] == c {
            return Some(i);
        }
        i += 1;
    }
    None
}

/// The pitch order of a text is determined by the text: any two sequences that
/// are its pitch order are the same sequence.
pub proof fn pitch_order_is_unique(text: Seq<char>, a: Seq<char>, b: Seq<char>)
    requires
        is_pitch_order(text, a),
        is_pitch_order(text, b),
    ensures
        a == b,
{
    assert(a.no_duplicates());
    assert(b.no_duplicates());
    a.lemma_multiset_has_no_duplicates();
    b.lemma_multiset_has_no_duplicates();
    assert(a.to_multiset() =~= b.to_multiset()) by {
        assert forall|c: char| a.to_multiset().count(c) == b.to_multiset().count(c) by {
            if a.contains(c) {
                assert(b.contains(c));
            }
        }
    }
    let leq = |x: char, y: char| x <= y;
    lemma_sorted_unique(a, b, leq);
}

/// Every key of a pitch order is alphanumeric or ASCII punctuation, and no
/// ASCII upper-case letter; an ASCII key is a lower-case letter, a digit or a
/// punctuation character, never whitespace or a control character.
pub proof fn pitch_keys_are_kept(text: Seq<char>, keys: Seq<char>)
    requires
        is_pitch_order(text, keys),
    ensures
        forall|i: int| 0 <= i < keys.len() ==> kept(#[trigger] keys[i]) && !('A' <= keys[i] <= 'Z'),
        forall|i: int|
            0 <= i < keys.len() && #[trigger] keys[i] <= '\x7f' ==> ('a' <= keys[i] <= 'z')
                || ('0' <= keys[i] <= '9') || ascii_punctuation(keys[i]),
{
    crate::text::cleaned_chars_are_kept(text);
    assert forall|i: int| 0 <= i < keys.len() implies kept(#[trigger] keys[i]) && !('A' <= keys[i]
        <= 'Z') by {
        assert(keys.contains(keys[i]));
        assert(cleaned(text).contains(keys[i]));
    }
}

} // verus!
