use vstd::prelude::*;

verus! {

/// What `char::is_alphanumeric` answers for `c`: membership in Unicode's
/// alphabetic or numeric classes.
pub uninterp spec fn unicode_alphanumeric(c: char) -> bool;

/// `c` is one of the ASCII punctuation characters: `!` to `/`, `:` to `@`,
/// `[` to `` ` `` and `{` to `~`.
pub open spec fn ascii_punctuation(c: char) -> bool {
    let u = c as u32;
    (33 <= u <= 47) || (58 <= u <= 64) || (91 <= u <= 96) || (123 <= u <= 126)
}

/// `c` with an ASCII upper-case letter replaced by its lower-case form.
pub open spec fn ascii_lower(c: char) -> char {
    if 'A' <= c <= 'Z' { ((c as u32) + 32) as char } else { c }
}

/// A character that survives the cleaning step.
pub open spec fn kept(c: char) -> bool {
    alphanumeric(c) || ascii_punctuation(c)
}

/// `c` is an ASCII letter or digit.
pub open spec fn ascii_alphanumeric(c: char) -> bool {
    ('a' <= c <= 'z') || ('A' <= c <= 'Z') || ('0' <= c <= '9')
}

/// `c` is alphanumeric: on ASCII a letter or digit, beyond it a member of
/// Unicode's alphabetic or numeric classes.
pub open spec fn alphanumeric(c: char) -> bool {
    if c <= '\x7f' { ascii_alphanumeric(c) } else { unicode_alphanumeric(c) }
}

/// Relies on `char::is_alphanumeric`: its answer depends on the character
/// alone, and on ASCII it holds of the letters and digits only.
pub assume_specification[ char::is_alphanumeric ](c: char) -> (r: bool)
    ensures
        c > '\x7f' ==> r == unicode_alphanumeric(c),
        c <= '\x7f' ==> r == ascii_alphanumeric(c),
;

/// Relies on `char::is_ascii_punctuation`: true exactly on the four ASCII
/// punctuation ranges.
pub assume_specification[ char::is_ascii_punctuation ](c: &char) -> (r: bool)
    ensures
        r == ascii_punctuation(*c),
;

/// Relies on `char::to_ascii_lowercase`: ASCII upper-case letters map to lower
/// case, every other character is returned unchanged.
pub assume_specification[ char::to_ascii_lowercase ](c: &char) -> (r: char)
    ensures
        r == ascii_lower(*c),
;

/// The cleaning step: every character lower-cased (ASCII letters only), then
/// only the kept ones, in their order.
pub open spec fn cleaned(s: Seq<char>) -> Seq<char>
    decreases s.len(),
{
    if s.len() == 0 {
        seq![]
    } else {
        let rest = cleaned(s.drop_last());
        let c = ascii_lower(s.last());
        if kept(c) { rest.push(c) } else { rest }
    }
}

/// `s` cut at each newline; the newlines themselves belong to no line. A text
/// with `k` newlines has `k + 1` lines, the empty text one empty line.
pub open spec fn split_lines(s: Seq<char>) -> Seq<Seq<char>>
    decreases s.len(),
{
    if s.len() == 0 {
        seq![seq![]]
    } else {
        let rest = split_lines(s.drop_last());
        if s.last() == '\n' {
            rest.push(seq![])
        } else {
            rest.update(rest.len() - 1, rest.last().push(s.last()))
        }
    }
}

/// The cleaned form of each line of `lines` that is not empty once cleaned,
/// in order.
pub open spec fn nonempty_cleaned(lines: Seq<Seq<char>>) -> Seq<Seq<char>>
    decreases lines.len(),
{
    if lines.len() == 0 {
        seq![]
    } else {
        let rest = nonempty_cleaned(lines.drop_last());
        let c = cleaned(lines.last());
        if c.len() > 0 { rest.push(c) } else { rest }
    }
}

/// How many lines of `lines` are not empty once cleaned.
pub open spec fn count_nonempty_cleaned(lines: Seq<Seq<char>>) -> nat
    decreases lines.len(),
{
    if lines.len() == 0 {
        0
    } else {
        count_nonempty_cleaned(lines.drop_last()) + if cleaned(lines.last()).len() > 0 {
            1nat
        } else {
            0nat
        }
    }
}

/// `v` holds, in order, the character sequences of `q`.
pub open spec fn holds_lines(v: Seq<Vec<char>>, q: Seq<Seq<char>>) -> bool {
    &&& v.len() == q.len()
    &&& forall|i: int| 0 <= i < v.len() ==> #[trigger] v[i]@ == q[i]
}

/// The cleaned, non-empty lines of a text, in order.
pub open spec fn cleaned_lines_of(s: Seq<char>) -> Seq<Seq<char>> {
    nonempty_cleaned(split_lines(s))
}

proof fn lemma_split_lines_nonempty(s: Seq<char>)
    ensures
        split_lines(s).len() >= 1,
    decreases s.len(),
{
    if s.len() > 0 {
        lemma_split_lines_nonempty(s.drop_last());
    }
}

proof fn lemma_cleaned_grows(s: Seq<char>, c: char)
    ensures
        forall|x: char| cleaned(s).contains(x) ==> cleaned(s.push(c)).contains(x),
{
    assert(s.push(c).drop_last() == s);
    let a = cleaned(s);
    let b = cleaned(s.push(c));
    assert forall|x: char| a.contains(x) implies b.contains(x) by {
        let i = choose|i: int| 0 <= i < a.len() && a[i] == x;
        assert(b[i] == x);
    }
}

/// Each qualifying line counts once: the cleaned, non-empty lines are as many
/// as the lines whose cleaned form is not empty.
pub proof fn cleaned_lines_count(lines: Seq<Seq<char>>)
    ensures
        nonempty_cleaned(lines).len() == count_nonempty_cleaned(lines),
        forall|i: int| 0 <= i < nonempty_cleaned(lines).len() ==> #[trigger] nonempty_cleaned(lines)[i].len() > 0,
    decreases lines.len(),
{
    if lines.len() > 0 {
        cleaned_lines_count(lines.drop_last());
    }
}

/// Every character of a cleaned text is alphanumeric or ASCII punctuation, is
/// no ASCII upper-case letter, and is the lower-cased form of a character of
/// the text.
pub proof fn cleaned_chars_are_kept(s: Seq<char>)
    ensures
        forall|c: char|
            #[trigger] cleaned(s).contains(c) ==> kept(c) && !('A' <= c <= 'Z') && exists|i: int|
                0 <= i < s.len() && ascii_lower(s[i]) == c,
    decreases s.len(),
{
    if s.len() > 0 {
        let p = s.drop_last();
        cleaned_chars_are_kept(p);
        assert forall|c: char| #[trigger] cleaned(s).contains(c) implies kept(c) && !('A' <= c
            <= 'Z') && exists|i: int| 0 <= i < s.len() && ascii_lower(s[i]) == c by {
            let t = cleaned(s);
            let r = cleaned(p);
            let k = choose|k: int| 0 <= k < t.len() && t[k] == c;
            if k < r.len() {
                assert(r[k] == c);
                assert(r.contains(c));
                let i = choose|i: int| 0 <= i < p.len() && ascii_lower(p[i]) == c;
                assert(s[i] == p[i]);
            } else {
                assert(s[s.len() - 1] == s.last());
            }
        }
    }
}

fn keep(c: char) -> (r: bool)
    ensures
        r == kept(c),
{
    c.is_alphanumeric() || c.is_ascii_punctuation()
}

/// Lower-cases `source_code` and keeps its alphanumeric and ASCII punctuation
/// characters, in order.
pub fn clean_source(source_code: &str) -> (r: Vec<char>)
    ensures
        r@ == cleaned(source_code@),
{
    let mut out: Vec<char> = Vec::new();
    for c in it: source_code.chars()
        invariant
            it.seq() == source_code@,
            out@ == cleaned(source_code@.take(it.index() as int)),
    {
        proof {
            let k = it.index() as int;
            assert(source_code@.take(k + 1).drop_last() == source_code@.take(k));
        }
        let d = c.to_ascii_lowercase();
        if keep(d) {
            out.push(d);
        }
    }
    proof {
        assert(source_code@.take(source_code@.len() as int) == source_code@);
    }
    out
}

/// The cleaned form of each line of `source_code` (split on newlines) that is
/// not empty once cleaned, in line order. Every character in them is a
/// character of the whole cleaned text.
pub fn cleaned_lines(source_code: &str) -> (r: Vec<Vec<char>>)
    ensures
        holds_lines(r@, cleaned_lines_of(source_code@)),
        forall|i: int, c: char|
            0 <= i < r@.len() && #[trigger] r@[i]@.contains(c) ==> cleaned(source_code@).contains(c),
{
    let mut out: Vec<Vec<char>> = Vec::new();
    let mut cur: Vec<char> = Vec::new();
    for c in it: source_code.chars()
        invariant
            it.seq() == source_code@,
            ({
                let lines = split_lines(source_code@.take(it.index() as int));
                &&& lines.len() >= 1
                &&& holds_lines(out@, nonempty_cleaned(lines.drop_last()))
                &&& cur@ == cleaned(lines.last())
            }),
            forall|i: int, x: char|
                0 <= i < out@.len() && #[trigger] out@[i]@.contains(x) ==> cleaned(
                    source_code@.take(it.index() as int),
                ).contains(x),
            forall|x: char|
                cur@.contains(x) ==> cleaned(source_code@.take(it.index() as int)).contains(x),
    {
        let ghost k = it.index() as int;
        let ghost pre = source_code@.take(k);
        let ghost lines = split_lines(pre);
        proof {
            assert(source_code@.take(k + 1) == pre.push(c));
            assert(pre.push(c).drop_last() == pre);
            lemma_cleaned_grows(pre, c);
            lemma_split_lines_nonempty(pre);
        }
        if c == '\n' {
            if cur.len() > 0 {
                let ghost old_out = out@;
                out.push(cur);
                proof {
                    assert(lines.push(seq![]).drop_last() == lines);
                    assert(lines == lines.drop_last().push(lines.last()));
                    assert(out@ == old_out.push(out@.last()));
                }
            } else {
                proof {
                    assert(lines == lines.drop_last().push(lines.last()));
                }
            }
            cur = Vec::new();
            proof {
                assert(split_lines(pre.push(c)) == lines.push(seq![]));
                assert(lines.push(seq![]).drop_last() == lines);
                assert(cleaned(seq![]) == Seq::<char>::empty());
            }
        } else {
            let ghost last = lines.last();
            let d = c.to_ascii_lowercase();
            if keep(d) {
                let ghost old_cur = cur@;
                cur.push(d);
                proof {
                    let q = pre.push(c);
                    let t = cleaned(q);
                    assert(t == cleaned(pre).push(d));
                    assert(t[t.len() - 1] == d);
                    assert forall|x: char| cur@.contains(x) implies t.contains(x) by {
                        if x != d {
                            let i = choose|i: int| 0 <= i < cur@.len() && cur@[i] == x;
                            assert(old_cur[i] == x);
                            assert(old_cur.contains(x));
                            assert(cleaned(pre).contains(x));
                        } else {
                            assert(t[t.len() - 1] == x);
                        }
                    }
                }
            }
            proof {
                let nl = lines.update(lines.len() - 1, last.push(c));
                assert(split_lines(pre.push(c)) == nl);
                assert(nl.drop_last() == lines.drop_last());
                assert(last.push(c).drop_last() == last);
            }
        }
    }
    let ghost lines = split_lines(source_code@.take(source_code@.len() as int));
    proof {
        assert(source_code@.take(source_code@.len() as int) == source_code@);
        assert(lines == lines.drop_last().push(lines.last()));
    }
    if cur.len() > 0 {
        let ghost old_out = out@;
        out.push(cur);
        proof {
            assert(out@ == old_out.push(out@.last()));
        }
    }
    out
}

} // verus!
