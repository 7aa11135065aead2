//! Characters, words, lines and numbers in text.

use vstd::prelude::*;

verus! {

/// `String::push`: appends one character.
pub assume_specification[ String::push ](s: &mut String, c: char)
    ensures
        final(s)@ == old(s)@.push(c),
;

/// Whether a character is white space, by the property of that name in Unicode.
pub open spec fn char_is_whitespace(c: char) -> bool {
    ||| '\u{9}' <= c <= '\u{d}'
    ||| c == '\u{20}'
    ||| c == '\u{85}'
    ||| c == '\u{a0}'
    ||| c == '\u{1680}'
    ||| '\u{2000}' <= c <= '\u{200a}'
    ||| c == '\u{2028}'
    ||| c == '\u{2029}'
    ||| c == '\u{202f}'
    ||| c == '\u{205f}'
    ||| c == '\u{3000}'
}

/// `char::is_whitespace`: whether the character has the property `White_Space` of
/// Unicode.
pub assume_specification[ char::is_whitespace ](c: char) -> (r: bool)
    ensures
        r == char_is_whitespace(c),
;

/// The views of a list of strings.
pub open spec fn texts(v: Seq<String>) -> Seq<Seq<char>> {
    v.map_values(|s: String| s@)
}

/// Whether `s` begins with `p`.
pub open spec fn begins_with(s: Seq<char>, p: Seq<char>) -> bool {
    p.len() <= s.len() && s.take(p.len() as int) == p
}

/// Whether `p` occurs in `s`.
pub open spec fn occurs_in(s: Seq<char>, p: Seq<char>) -> bool {
    exists|i: int| 0 <= i <= s.len() && begins_with(#[trigger] s.skip(i), p)
}

/// The position of the first `c` in `s`, or the length of `s` where there is none.
pub open spec fn first_char(s: Seq<char>, c: char) -> int
    decreases s.len(),
{
    if s.len() == 0 || s[0] == c {
        0
    } else {
        1 + first_char(s.drop_first(), c)
    }
}

/// `s` without the whitespace at its start.
pub open spec fn trim_front(s: Seq<char>) -> Seq<char>
    decreases s.len(),
{
    if s.len() > 0 && char_is_whitespace(s[0]) {
        trim_front(s.drop_first())
    } else {
        s
    }
}

/// `s` without the whitespace at its end.
pub open spec fn trim_back(s: Seq<char>) -> Seq<char>
    decreases s.len(),
{
    if s.len() > 0 && char_is_whitespace(s.last()) {
        trim_back(s.drop_last())
    } else {
        s
    }
}

/// `s` without the whitespace at both ends.
pub open spec fn trimmed(s: Seq<char>) -> Seq<char> {
    trim_back(trim_front(s))
}

/// `s` without the run of `c` at its end.
pub open spec fn without_trailing(s: Seq<char>, c: char) -> Seq<char>
    decreases s.len(),
{
    if s.len() > 0 && s.last() == c {
        without_trailing(s.drop_last(), c)
    } else {
        s
    }
}

/// How many characters stand before the first whitespace of `s`.
pub open spec fn word_len(s: Seq<char>) -> int
    decreases s.len(),
{
    if s.len() == 0 || char_is_whitespace(s[0]) {
        0
    } else {
        1 + word_len(s.drop_first())
    }
}

proof fn lemma_trim_front_len(s: Seq<char>)
    ensures
        trim_front(s).len() <= s.len(),
        trim_front(s).len() > 0 ==> !char_is_whitespace(trim_front(s)[0]),
    decreases s.len(),
{
    if s.len() > 0 && char_is_whitespace(s[0]) {
        lemma_trim_front_len(s.drop_first());
    }
}

proof fn lemma_word_len(s: Seq<char>)
    ensures
        0 <= word_len(s) <= s.len(),
        s.len() > 0 && !char_is_whitespace(s[0]) ==> word_len(s) >= 1,
    decreases s.len(),
{
    if s.len() > 0 && !char_is_whitespace(s[0]) {
        lemma_word_len(s.drop_first());
    }
}

/// The runs of `s` between whitespace, in order.
pub open spec fn words(s: Seq<char>) -> Seq<Seq<char>>
    decreases s.len(), 1int,
    via words_decreases
{
    let t = trim_front(s);
    if t.len() == 0 {
        Seq::empty()
    } else {
        seq![t.take(word_len(t))] + words(t.skip(word_len(t)))
    }
}

#[via_fn]
proof fn words_decreases(s: Seq<char>) {
    lemma_trim_front_len(s);
    lemma_word_len(trim_front(s));
}

/// `s` without one carriage return at its end.
pub open spec fn without_cr(s: Seq<char>) -> Seq<char> {
    if s.len() > 0 && s.last() == '\r' {
        s.drop_last()
    } else {
        s
    }
}

/// Where the first `c` stands.
pub proof fn lemma_first_char_bound(s: Seq<char>, c: char)
    ensures
        0 <= first_char(s, c) <= s.len(),
        first_char(s, c) < s.len() ==> s[first_char(s, c)] == c,
        forall|j: int| 0 <= j < first_char(s, c) ==> s[j] != c,
    decreases s.len(),
{
    if s.len() > 0 && s[0] != c {
        let d = s.drop_first();
        lemma_first_char_bound(d, c);
        assert forall|j: int| 0 <= j < first_char(s, c) implies s[j] != c by {
            if j > 0 {
                assert(d[j - 1] == s[j]);
            }
        }
    }
}

/// The lines of `s`: each ends with a line feed or with a carriage return and a
/// line feed, which are not part of it; the last may lack its end.
pub open spec fn lines(s: Seq<char>) -> Seq<Seq<char>>
    decreases s.len(),
    via lines_decreases
{
    if s.len() == 0 {
        Seq::empty()
    } else {
        let n = first_char(s, '\n');
        if n < s.len() {
            seq![without_cr(s.take(n))] + lines(s.skip(n + 1))
        } else {
            seq![s]
        }
    }
}

#[via_fn]
proof fn lines_decreases(s: Seq<char>) {
    lemma_first_char_bound(s, '\n');
}

/// What stands between the first and the second `c` of `s` (or the end).
pub open spec fn second_piece(s: Seq<char>, c: char) -> Option<Seq<char>> {
    let n = first_char(s, c);
    if n < s.len() {
        let r = s.skip(n + 1);
        Some(r.take(first_char(r, c)))
    } else {
        None
    }
}

/// `s` with each occurrence of `p`, found from the left, replaced by `w`.
pub open spec fn replaced(s: Seq<char>, p: Seq<char>, w: Seq<char>) -> Seq<char>
    decreases s.len(),
{
    if p.len() == 0 || s.len() == 0 {
        s
    } else if begins_with(s, p) {
        w + replaced(s.skip(p.len() as int), p, w)
    } else {
        seq![s[0]] + replaced(s.drop_first(), p, w)
    }
}

/// `s` with the first occurrence of `p` replaced by `w`.
pub open spec fn replaced_once(s: Seq<char>, p: Seq<char>, w: Seq<char>) -> Seq<char>
    decreases s.len(),
{
    if begins_with(s, p) {
        w + s.skip(p.len() as int)
    } else if s.len() == 0 {
        s
    } else {
        seq![s[0]] + replaced_once(s.drop_first(), p, w)
    }
}

/// The characters of `s`.
pub fn chars_of(s: &str) -> (r: Vec<char>)
    ensures
        r@ == s@,
{
    let mut out: Vec<char> = Vec::new();
    for c in it: s.chars()
        invariant
            it.seq() == s@,
            out@ == s@.take(it.index() as int),
    {
        out.push(c);
        proof {
            assert(out@ =~= s@.take(it.index() as int + 1));
        }
    }
    proof {
        assert(s@.take(s@.len() as int) =~= s@);
    }
    out
}

/// The characters of `cs` from `from` up to and without `to`, as a string.
pub fn string_of(cs: &[char], from: usize, to: usize) -> (r: String)
    requires
        from <= to <= cs@.len(),
    ensures
        r@ == cs@.subrange(from as int, to as int),
{
    let mut out: String = String::new();
    let mut i: usize = from;
    while i < to
        invariant
            from <= i <= to <= cs@.len(),
            out@ == cs@.subrange(from as int, i as int),
        decreases to - i,
    {
        out.push(cs[i]);
        proof {
            assert(cs@.subrange(from as int, i + 1) =~= cs@.subrange(from as int, i as int).push(
                cs@[i as int],
            ));
        }
        i = i + 1;
    }
    out
}

/// Whether `p` stands in `cs` at `at`.
pub fn stands_at(cs: &[char], at: usize, p: &[char]) -> (r: bool)
    requires
        at <= cs@.len(),
    ensures
        r == begins_with(cs@.skip(at as int), p@),
{
    let rest: usize = cs.len() - at;
    if p.len() > rest {
        return false;
    }
    let mut i: usize = 0;
    while i < p.len()
        invariant
            i <= p@.len(),
            at + p@.len() <= cs.len(),
            forall|j: int| 0 <= j < i ==> p@[j] == cs@[at + j],
        decreases p@.len() - i,
    {
        if p[i] != cs[at + i] {
            proof {
                assert(cs@.skip(at as int).take(p@.len() as int)[i as int] == cs@[at + i]);
            }
            return false;
        }
        i = i + 1;
    }
    proof {
        assert(cs@.skip(at as int).take(p@.len() as int) =~= p@);
    }
    true
}

/// Whether `s` begins with `p`.
pub fn starts_with(s: &str, p: &str) -> (r: bool)
    ensures
        r == begins_with(s@, p@),
{
    let cs = chars_of(s);
    let ps = chars_of(p);
    proof {
        assert(cs@.skip(0) =~= s@);
    }
    stands_at(cs.as_slice(), 0, ps.as_slice())
}

/// Whether `p` occurs in `s`.
pub fn contains(s: &str, p: &str) -> (r: bool)
    ensures
        r == occurs_in(s@, p@),
{
    let cs = chars_of(s);
    let ps = chars_of(p);
    let mut i: usize = 0;
    while i < cs.len()
        invariant
            cs@ == s@,
            ps@ == p@,
            i <= cs@.len(),
            forall|j: int| 0 <= j < i ==> !begins_with(#[trigger] s@.skip(j), p@),
        decreases cs@.len() - i,
    {
        if stands_at(cs.as_slice(), i, ps.as_slice()) {
            return true;
        }
        i = i + 1;
    }
    stands_at(cs.as_slice(), i, ps.as_slice())
}

/// The first `n` characters of `s`.
pub fn take_chars(s: &str, n: usize) -> (r: String)
    requires
        n <= s@.len(),
    ensures
        r@ == s@.take(n as int),
{
    let cs = chars_of(s);
    string_of(cs.as_slice(), 0, n)
}

/// `a` followed by `b`.
pub fn concat(a: &str, b: &str) -> (r: String)
    ensures
        r@ == a@ + b@,
{
    let mut out = a.to_owned();
    out.append(b);
    out
}

/// The position of the first `c` at or after `from`, or the length of `cs`.
pub fn find_char(cs: &[char], from: usize, c: char) -> (r: usize)
    requires
        from <= cs@.len(),
    ensures
        from <= r <= cs@.len(),
        r == from + first_char(cs@.skip(from as int), c),
{
    let mut i: usize = from;
    while i < cs.len() && cs[i] != c
        invariant
            from <= i <= cs@.len(),
            first_char(cs@.skip(from as int), c) == i - from + first_char(cs@.skip(i as int), c),
        decreases cs@.len() - i,
    {
        proof {
            assert(cs@.skip(i as int).drop_first() =~= cs@.skip(i + 1));
        }
        i = i + 1;
    }
    proof {
        lemma_first_char_bound(cs@.skip(from as int), c);
    }
    i
}

/// `s` without the whitespace at both ends.
pub fn trim(s: &str) -> (r: String)
    ensures
        r@ == trimmed(s@),
{
    let cs = chars_of(s);
    let mut a: usize = 0;
    proof {
        assert(cs@.skip(0) =~= s@);
    }
    while a < cs.len() && cs[a].is_whitespace()
        invariant
            cs@ == s@,
            a <= cs@.len(),
            trim_front(s@) == trim_front(cs@.skip(a as int)),
        decreases cs@.len() - a,
    {
        proof {
            assert(cs@.skip(a as int).drop_first() =~= cs@.skip(a + 1));
        }
        a = a + 1;
    }
    let mut b: usize = cs.len();
    proof {
        assert(cs@.skip(a as int) =~= cs@.subrange(a as int, b as int));
    }
    while b > a && cs[b - 1].is_whitespace()
        invariant
            cs@ == s@,
            a <= b <= cs@.len(),
            trimmed(s@) == trim_back(cs@.subrange(a as int, b as int)),
        decreases b,
    {
        proof {
            assert(cs@.subrange(a as int, b as int).drop_last() =~= cs@.subrange(a as int, b - 1));
        }
        b = b - 1;
    }
    string_of(cs.as_slice(), a, b)
}

/// `s` without the run of `c` at its end.
pub fn trim_end_char(s: &str, c: char) -> (r: String)
    ensures
        r@ == without_trailing(s@, c),
{
    let cs = chars_of(s);
    let mut b: usize = cs.len();
    proof {
        assert(cs@.take(b as int) =~= s@);
    }
    while b > 0 && cs[b - 1] == c
        invariant
            b <= cs@.len(),
            without_trailing(s@, c) == without_trailing(cs@.take(b as int), c),
        decreases b,
    {
        proof {
            assert(cs@.take(b as int).drop_last() =~= cs@.take(b - 1));
        }
        b = b - 1;
    }
    string_of(cs.as_slice(), 0, b)
}

/// The runs of `s` between whitespace, in order.
pub fn split_words(s: &str) -> (r: Vec<String>)
    ensures
        texts(r@) == words(s@),
{
    let cs = chars_of(s);
    let mut out: Vec<String> = Vec::new();
    let mut i: usize = 0;
    proof {
        assert(cs@.skip(0) =~= s@);
        assert(texts(out@) + words(s@) =~= words(s@));
    }
    while i < cs.len()
        invariant
            cs@ == s@,
            i <= cs@.len(),
            texts(out@) + words(cs@.skip(i as int)) == words(s@),
        decreases cs@.len() - i,
    {
        let start: usize = i;
        while i < cs.len() && cs[i].is_whitespace()
            invariant
                cs@ == s@,
                start <= i <= cs@.len(),
                trim_front(cs@.skip(start as int)) == trim_front(cs@.skip(i as int)),
            decreases cs@.len() - i,
        {
            proof {
                assert(cs@.skip(i as int).drop_first() =~= cs@.skip(i + 1));
            }
            i = i + 1;
        }
        let a: usize = i;
        let ghost t = cs@.skip(a as int);
        proof {
            assert(trim_front(cs@.skip(start as int)) == t);
            assert(cs@.skip(a as int) =~= t);
        }
        while i < cs.len() && !cs[i].is_whitespace()
            invariant
                cs@ == s@,
                a <= i <= cs@.len(),
                t == cs@.skip(a as int),
                word_len(t) == i - a + word_len(cs@.skip(i as int)),
            decreases cs@.len() - i,
        {
            proof {
                assert(cs@.skip(i as int).drop_first() =~= cs@.skip(i + 1));
            }
            i = i + 1;
        }
        if a < i {
            let ghost before = out@;
            out.push(string_of(cs.as_slice(), a, i));
            proof {
                assert(t.take(word_len(t)) =~= cs@.subrange(a as int, i as int));
                assert(t.skip(word_len(t)) =~= cs@.skip(i as int));
                assert(texts(out@) =~= texts(before).push(t.take(word_len(t))));
                assert(texts(before) + (seq![t.take(word_len(t))] + words(cs@.skip(i as int)))
                    =~= texts(out@) + words(cs@.skip(i as int)));
            }
        } else {
            proof {
                assert(t.len() == 0);
                assert(words(cs@.skip(i as int)) =~= words(cs@.skip(start as int)));
            }
        }
    }
    proof {
        assert(cs@.skip(i as int).len() == 0);
        assert(words(cs@.skip(i as int)) =~= Seq::<Seq<char>>::empty());
        assert(texts(out@) + words(cs@.skip(i as int)) =~= texts(out@));
    }
    out
}

/// The lines of `s`.
pub fn split_lines(s: &str) -> (r: Vec<String>)
    ensures
        texts(r@) == lines(s@),
{
    let cs = chars_of(s);
    let mut out: Vec<String> = Vec::new();
    let mut i: usize = 0;
    proof {
        assert(cs@.skip(0) =~= s@);
        assert(texts(out@) + lines(s@) =~= lines(s@));
    }
    while i < cs.len()
        invariant
            cs@ == s@,
            i <= cs@.len(),
            texts(out@) + lines(cs@.skip(i as int)) == lines(s@),
        decreases cs@.len() - i,
    {
        let ghost t = cs@.skip(i as int);
        let ghost before = out@;
        let n: usize = find_char(cs.as_slice(), i, '\n');
        if n < cs.len() {
            let mut e: usize = n;
            if n > i && cs[n - 1] == '\r' {
                e = n - 1;
            }
            out.push(string_of(cs.as_slice(), i, e));
            proof {
                assert(t.take(n - i) =~= cs@.subrange(i as int, n as int));
                assert(without_cr(t.take(n - i)) =~= cs@.subrange(i as int, e as int));
                assert(t.skip(n - i + 1) =~= cs@.skip(n + 1));
                assert(texts(out@) =~= texts(before).push(without_cr(t.take(n - i))));
                assert(texts(before) + (seq![without_cr(t.take(n - i))] + lines(cs@.skip(n + 1)))
                    =~= texts(out@) + lines(cs@.skip(n + 1)));
            }
            i = n + 1;
        } else {
            out.push(string_of(cs.as_slice(), i, n));
            proof {
                assert(t =~= cs@.subrange(i as int, n as int));
                assert(texts(out@) =~= texts(before).push(t));
                assert(cs@.skip(n as int).len() == 0);
                assert(texts(before) + seq![t] =~= texts(out@) + lines(cs@.skip(n as int)));
            }
            i = n;
        }
    }
    proof {
        assert(cs@.skip(i as int).len() == 0);
        assert(texts(out@) + lines(cs@.skip(i as int)) =~= texts(out@));
    }
    out
}

/// What stands before and after the first `c`, where there is one.
pub fn split_once(s: &str, c: char) -> (r: Option<(String, String)>)
    ensures
        match r {
            Some(p) => first_char(s@, c) < s@.len() && p.0@ == s@.take(first_char(s@, c)) && p.1@
                == s@.skip(first_char(s@, c) + 1),
            None => first_char(s@, c) == s@.len(),
        },
{
    let cs = chars_of(s);
    proof {
        assert(cs@.skip(0) =~= s@);
    }
    let n: usize = find_char(cs.as_slice(), 0, c);
    if n < cs.len() {
        Some((string_of(cs.as_slice(), 0, n), string_of(cs.as_slice(), n + 1, cs.len())))
    } else {
        None
    }
}

/// What stands before the first `c`, all of `s` where there is none.
pub fn before_char(s: &str, c: char) -> (r: String)
    ensures
        r@ == s@.take(first_char(s@, c)),
{
    let cs = chars_of(s);
    proof {
        assert(cs@.skip(0) =~= s@);
    }
    let n: usize = find_char(cs.as_slice(), 0, c);
    string_of(cs.as_slice(), 0, n)
}

/// What stands between the first and the second `c` (or the end).
pub fn piece_after(s: &str, c: char) -> (r: Option<String>)
    ensures
        match r {
            Some(p) => second_piece(s@, c) == Some(p@),
            None => second_piece(s@, c) is None,
        },
{
    match split_once(s, c) {
        Some(p) => Some(before_char(p.1.as_str(), c)),
        None => None,
    }
}

/// Appends the characters of `cs` from `from` on to `out`.
fn push_from(out: &mut String, cs: &[char], from: usize)
    requires
        from <= cs@.len(),
    ensures
        final(out)@ == old(out)@ + cs@.skip(from as int),
{
    let rest = string_of(cs, from, cs.len());
    out.append(rest.as_str());
}

/// `s` with each occurrence of `p`, found from the left, replaced by `w`.
pub fn replace(s: &str, p: &str, w: &str) -> (r: String)
    requires
        p@.len() > 0,
    ensures
        r@ == replaced(s@, p@, w@),
{
    let cs = chars_of(s);
    let ps = chars_of(p);
    let mut out: String = String::new();
    let mut i: usize = 0;
    proof {
        assert(cs@.skip(0) =~= s@);
        assert(out@ + replaced(s@, p@, w@) =~= replaced(s@, p@, w@));
    }
    while i < cs.len()
        invariant
            cs@ == s@,
            ps@ == p@,
            p@.len() > 0,
            i <= cs@.len(),
            out@ + replaced(cs@.skip(i as int), p@, w@) == replaced(s@, p@, w@),
        decreases cs@.len() - i,
    {
        let ghost t = cs@.skip(i as int);
        let ghost before = out@;
        if stands_at(cs.as_slice(), i, ps.as_slice()) {
            out.append(w);
            proof {
                assert(t.skip(p@.len() as int) =~= cs@.skip(i + p@.len()));
                assert(before + (w@ + replaced(cs@.skip(i + p@.len()), p@, w@)) =~= out@
                    + replaced(cs@.skip(i + p@.len()), p@, w@));
            }
            i = i + ps.len();
        } else {
            out.push(cs[i]);
            proof {
                assert(t.drop_first() =~= cs@.skip(i + 1));
                assert(before + (seq![t[0]] + replaced(cs@.skip(i + 1), p@, w@)) =~= out@
                    + replaced(cs@.skip(i + 1), p@, w@));
            }
            i = i + 1;
        }
    }
    proof {
        assert(cs@.skip(i as int).len() == 0);
        assert(out@ + replaced(cs@.skip(i as int), p@, w@) =~= out@);
    }
    out
}

/// `s` with the first occurrence of `p` replaced by `w`.
pub fn replace_first(s: &str, p: &str, w: &str) -> (r: String)
    ensures
        r@ == replaced_once(s@, p@, w@),
{
    let cs = chars_of(s);
    let ps = chars_of(p);
    let mut out: String = String::new();
    let mut i: usize = 0;
    proof {
        assert(cs@.skip(0) =~= s@);
        assert(out@ + replaced_once(s@, p@, w@) =~= replaced_once(s@, p@, w@));
    }
    while i < cs.len()
        invariant
            cs@ == s@,
            ps@ == p@,
            i <= cs@.len(),
            out@ + replaced_once(cs@.skip(i as int), p@, w@) == replaced_once(s@, p@, w@),
        decreases cs@.len() - i,
    {
        let ghost t = cs@.skip(i as int);
        let ghost before = out@;
        if stands_at(cs.as_slice(), i, ps.as_slice()) {
            out.append(w);
            push_from(&mut out, cs.as_slice(), i + ps.len());
            proof {
                assert(t.skip(p@.len() as int) =~= cs@.skip(i + p@.len()));
                assert(before + (w@ + cs@.skip(i + p@.len())) =~= out@);
            }
            return out;
        }
        out.push(cs[i]);
        proof {
            assert(t.drop_first() =~= cs@.skip(i + 1));
            assert(before + (seq![t[0]] + replaced_once(cs@.skip(i + 1), p@, w@)) =~= out@
                + replaced_once(cs@.skip(i + 1), p@, w@));
        }
        i = i + 1;
    }
    let ghost t = cs@.skip(i as int);
    if ps.len() == 0 {
        out.append(w);
        proof {
            assert(t.take(0) =~= p@);
            assert(begins_with(t, p@));
            assert(w@ + t.skip(0) =~= w@);
        }
    } else {
        proof {
            assert(replaced_once(t, p@, w@) =~= t);
            assert(out@ + t =~= out@);
        }
    }
    out
}

/// Whether two texts are the same.
pub fn same_text(a: &str, b: &str) -> (r: bool)
    ensures
        r == (a@ == b@),
{
    let x = chars_of(a);
    let y = chars_of(b);
    if x.len() != y.len() {
        return false;
    }
    let mut i: usize = 0;
    while i < x.len()
        invariant
            x@ == a@,
            y@ == b@,
            x@.len() == y@.len(),
            i <= x@.len(),
            forall|j: int| 0 <= j < i ==> x@[j] == y@[j],
        decreases x@.len() - i,
    {
        if x[i] != y[i] {
            return false;
        }
        i = i + 1;
    }
    proof {
        assert(a@ =~= b@);
    }
    true
}

/// The position of the first string of `v` that reads `s`.
pub fn position_of(v: &Vec<String>, s: &str) -> (r: Option<usize>)
    ensures
        match r {
            Some(i) => i < v@.len() && v@[i as int]@ == s@ && forall|j: int|
                0 <= j < i ==> (#[trigger] v@[j])@ != s@,
            None => forall|j: int| 0 <= j < v@.len() ==> (#[trigger] v@[j])@ != s@,
        },
{
    let mut i: usize = 0;
    while i < v.len()
        invariant
            i <= v@.len(),
            forall|j: int| 0 <= j < i ==> (#[trigger] v@[j])@ != s@,
        decreases v@.len() - i,
    {
        if same_text(v[i].as_str(), s) {
            return Some(i);
        }
        i = i + 1;
    }
    None
}

/// A text begins with another exactly where it is that other and something behind it.
pub proof fn lemma_begins_with(s: Seq<char>, p: Seq<char>, rest: Seq<char>)
    ensures
        begins_with(p + rest, p),
        begins_with(s, p) <==> exists|r: Seq<char>| s == #[trigger] (p + r),
{
    assert((p + rest).take(p.len() as int) =~= p);
    if begins_with(s, p) {
        assert(s =~= p + s.skip(p.len() as int));
    }
    if exists|r: Seq<char>| s == #[trigger] (p + r) {
        let r = choose|r: Seq<char>| s == #[trigger] (p + r);
        assert(s.take(p.len() as int) =~= p);
    }
}

/// A text occurs in another exactly where that other is it with something on both sides.
pub proof fn lemma_occurs_in(s: Seq<char>, p: Seq<char>, a: Seq<char>, b: Seq<char>)
    ensures
        occurs_in(a + p + b, p),
        occurs_in(s, p) ==> exists|i: int|
            0 <= i <= s.len() - p.len() && s == #[trigger] s.take(i) + p + s.skip(i + p.len()),
{
    let whole = a + p + b;
    assert(whole.skip(a.len() as int) =~= p + b);
    lemma_begins_with(p + b, p, b);
    assert(begins_with(whole.skip(a.len() as int), p));
    if occurs_in(s, p) {
        let i = choose|i: int| 0 <= i <= s.len() && begins_with(#[trigger] s.skip(i), p);
        let t = s.skip(i);
        assert(t.take(p.len() as int) == p);
        assert(s.take(i) + p + s.skip(i + p.len()) =~= s) by {
            assert forall|j: int| 0 <= j < p.len() implies p[j] == s[i + j] by {
                assert(t.take(p.len() as int)[j] == t[j]);
            }
        }
    }
}

/// A character is found where it stands first, whatever follows, and at the end where it
/// does not stand at all.
pub proof fn lemma_first_char(a: Seq<char>, c: char, b: Seq<char>)
    requires
        !a.contains(c),
    ensures
        first_char(a + seq![c] + b, c) == a.len(),
        first_char(a, c) == a.len(),
{
    let s = a + seq![c] + b;
    lemma_first_char_bound(s, c);
    lemma_first_char_bound(a, c);
    let n = first_char(s, c);
    assert(s[a.len() as int] == c);
    if n < a.len() {
        assert(a[n] == c);
    }
}

/// Of the characters of ASCII, the space and those from the tab to the carriage return
/// are white.
pub proof fn lemma_white_ascii(c: char)
    requires
        c as int <= 127,
    ensures
        char_is_whitespace(c) <==> c as int == 32 || 9 <= c as int <= 13,
{
}

proof fn lemma_trim_front(w: Seq<char>, t: Seq<char>)
    requires
        forall|i: int| 0 <= i < w.len() ==> char_is_whitespace(#[trigger] w[i]),
        t.len() > 0 ==> !char_is_whitespace(t[0]),
    ensures
        trim_front(w + t) == t,
    decreases w.len(),
{
    if w.len() == 0 {
        assert(w + t =~= t);
    } else {
        assert((w + t)[0] == w[0]);
        assert((w + t).drop_first() =~= w.drop_first() + t);
        assert forall|i: int| 0 <= i < w.drop_first().len() implies char_is_whitespace(
            #[trigger] w.drop_first()[i],
        ) by {
            assert(w.drop_first()[i] == w[i + 1]);
        }
        lemma_trim_front(w.drop_first(), t);
    }
}

proof fn lemma_trim_back(t: Seq<char>, w: Seq<char>)
    requires
        forall|i: int| 0 <= i < w.len() ==> char_is_whitespace(#[trigger] w[i]),
        t.len() > 0 ==> !char_is_whitespace(t.last()),
    ensures
        trim_back(t + w) == t,
    decreases w.len(),
{
    if w.len() == 0 {
        assert(t + w =~= t);
    } else {
        assert((t + w).last() == w.last());
        assert((t + w).drop_last() =~= t + w.drop_last());
        lemma_trim_back(t, w.drop_last());
    }
}

/// White space on both sides is cut off, and nothing else is.
pub proof fn lemma_trimmed(before: Seq<char>, t: Seq<char>, after: Seq<char>)
    requires
        forall|i: int| 0 <= i < before.len() ==> char_is_whitespace(#[trigger] before[i]),
        forall|i: int| 0 <= i < after.len() ==> char_is_whitespace(#[trigger] after[i]),
        t.len() > 0 ==> !char_is_whitespace(t[0]) && !char_is_whitespace(t.last()),
    ensures
        trimmed(before + t + after) == t,
        trimmed(t) == t,
{
    if t.len() > 0 {
        assert(before + t + after =~= before + (t + after));
        lemma_trim_front(before, t + after);
        lemma_trim_back(t, after);
        lemma_trim_front(Seq::empty(), t);
        lemma_trim_back(t, Seq::empty());
        assert(Seq::<char>::empty() + t =~= t);
        assert(t + Seq::<char>::empty() =~= t);
    } else {
        let w = before + after;
        assert(before + t + after =~= w + t);
        lemma_trim_front(w, t);
    }
}

/// Every copy of a character at the end is cut off, and nothing else is.
pub proof fn lemma_without_the_end(s: Seq<char>, c: char)
    ensures
        s.len() == 0 || s.last() != c ==> without_trailing(s, c) == s,
        without_trailing(s.push(c), c) == without_trailing(s, c),
{
    assert(s.push(c).drop_last() =~= s);
}

proof fn lemma_word_len_of(w: Seq<char>, rest: Seq<char>)
    requires
        forall|i: int| 0 <= i < w.len() ==> !char_is_whitespace(#[trigger] w[i]),
        rest.len() > 0 ==> char_is_whitespace(rest[0]),
    ensures
        word_len(w + rest) == w.len(),
    decreases w.len(),
{
    if w.len() == 0 {
        assert(w + rest =~= rest);
    } else {
        assert((w + rest)[0] == w[0]);
        assert((w + rest).drop_first() =~= w.drop_first() + rest);
        assert forall|i: int| 0 <= i < w.drop_first().len() implies !char_is_whitespace(
            #[trigger] w.drop_first()[i],
        ) by {
            assert(w.drop_first()[i] == w[i + 1]);
        }
        lemma_word_len_of(w.drop_first(), rest);
    }
}

/// A word ends at the first white character behind it, and white space before a word is
/// passed over.
pub proof fn lemma_words(w: Seq<char>, c: char, rest: Seq<char>)
    requires
        w.len() > 0,
        forall|i: int| 0 <= i < w.len() ==> !char_is_whitespace(#[trigger] w[i]),
        char_is_whitespace(c),
    ensures
        words(w + seq![c] + rest) == seq![w] + words(seq![c] + rest),
        words(seq![c] + rest) == words(rest),
        words(w) == seq![w],
        words(Seq::empty()) == Seq::<Seq<char>>::empty(),
{
    let s = w + (seq![c] + rest);
    assert(w + seq![c] + rest =~= s);
    assert(s[0] == w[0]);
    assert(trim_front(s) == s);
    lemma_word_len_of(w, seq![c] + rest);
    assert(s.take(w.len() as int) =~= w);
    assert(s.skip(w.len() as int) =~= seq![c] + rest);
    assert((seq![c] + rest).drop_first() =~= rest);
    assert(trim_front(seq![c] + rest) == trim_front(rest));
    lemma_words_of_trimmed(seq![c] + rest);
    lemma_words_of_trimmed(rest);
    lemma_word_len_of(w, Seq::empty());
    assert(w + Seq::<char>::empty() =~= w);
    assert(trim_front(w) == w);
    assert(w.take(w.len() as int) =~= w);
    assert(w.skip(w.len() as int) =~= Seq::<char>::empty());
    assert(words(Seq::empty()) =~= Seq::<Seq<char>>::empty());
    assert(words(w) =~= seq![w]);
}

proof fn lemma_words_of_trimmed(s: Seq<char>)
    ensures
        words(s) == words(trim_front(s)),
{
    lemma_trim_front_twice(s);
}

proof fn lemma_trim_front_twice(s: Seq<char>)
    ensures
        trim_front(trim_front(s)) == trim_front(s),
    decreases s.len(),
{
    if s.len() > 0 && char_is_whitespace(s[0]) {
        lemma_trim_front_twice(s.drop_first());
    }
}

/// A line ends at the first line feed, a carriage return before that is part of the end,
/// and the last line needs no end.
pub proof fn lemma_lines(line: Seq<char>, rest: Seq<char>)
    requires
        !line.contains('\n'),
    ensures
        line.len() == 0 || line.last() != '\r' ==> lines(line + seq!['\n'] + rest) == seq![line]
            + lines(rest),
        lines(line + seq!['\r'] + seq!['\n'] + rest) == seq![line] + lines(rest),
        line.len() > 0 ==> lines(line) == seq![line],
        lines(Seq::empty()) == Seq::<Seq<char>>::empty(),
{
    let s = line + seq!['\n'] + rest;
    lemma_first_char(line, '\n', rest);
    assert(s.take(line.len() as int) =~= line);
    assert(s.skip(line.len() as int + 1) =~= rest);
    let l2 = line + seq!['\r'];
    assert(!l2.contains('\n')) by {
        if l2.contains('\n') {
            let i = choose|i: int| 0 <= i < l2.len() && l2[i] == '\n';
            assert(line[i] == '\n');
        }
    }
    let s2 = l2 + seq!['\n'] + rest;
    lemma_first_char(l2, '\n', rest);
    assert(s2.take(l2.len() as int) =~= l2);
    assert(s2.skip(l2.len() as int + 1) =~= rest);
    assert(l2.drop_last() =~= line);
}

/// The second piece stands between the first two separators, or reaches to the end where
/// there is only one; without any there is none.
pub proof fn lemma_second_piece(a: Seq<char>, b: Seq<char>, c: char, rest: Seq<char>)
    requires
        !a.contains(c),
        !b.contains(c),
    ensures
        second_piece(a + seq![c] + (b + seq![c] + rest), c) == Some(b),
        second_piece(a + seq![c] + b, c) == Some(b),
        second_piece(a, c) is None,
{
    let tail = b + seq![c] + rest;
    let s = a + seq![c] + tail;
    lemma_first_char(a, c, tail);
    assert(s.skip(a.len() as int + 1) =~= tail);
    lemma_first_char(b, c, rest);
    assert(tail.take(b.len() as int) =~= b);
    let s2 = a + seq![c] + b;
    lemma_first_char(a, c, b);
    assert(s2.skip(a.len() as int + 1) =~= b);
    assert(b.take(b.len() as int) =~= b);
}

/// What stands before the first occurrence is kept, the occurrence gives way to its
/// replacement, and what follows is left as it is, or treated alike where all
/// occurrences are replaced.
pub proof fn lemma_replacing(a: Seq<char>, p: Seq<char>, b: Seq<char>, w: Seq<char>)
    requires
        p.len() > 0,
        forall|i: int| 0 <= i < a.len() ==> !begins_with(#[trigger] (a + p + b).skip(i), p),
    ensures
        replaced_once(a + p + b, p, w) == a + w + b,
        replaced(a + p + b, p, w) == a + w + replaced(b, p, w),
    decreases a.len(),
{
    let s = a + p + b;
    if a.len() == 0 {
        assert(s =~= p + b);
        lemma_begins_with(s, p, b);
        assert(s.skip(p.len() as int) =~= b);
        assert(a + w + b =~= w + b);
        assert(a + w + replaced(b, p, w) =~= w + replaced(b, p, w));
    } else {
        let d = a.drop_first();
        let t = d + p + b;
        assert(s.skip(0) =~= s);
        assert(!begins_with(s.skip(0), p));
        assert(s.drop_first() =~= t);
        assert forall|i: int| 0 <= i < d.len() implies !begins_with(#[trigger] t.skip(i), p) by {
            assert(t.skip(i) =~= s.skip(i + 1));
        }
        lemma_replacing(d, p, b, w);
        assert(seq![s[0]] + (d + w + b) =~= a + w + b);
        assert(seq![s[0]] + (d + w + replaced(b, p, w)) =~= a + w + replaced(b, p, w));
    }
}

/// Where nothing occurs nothing is replaced.
pub proof fn lemma_nothing_to_replace(s: Seq<char>, p: Seq<char>, w: Seq<char>)
    requires
        !occurs_in(s, p),
    ensures
        replaced(s, p, w) == s,
        replaced_once(s, p, w) == s,
    decreases s.len(),
{
    assert(s.skip(0) =~= s);
    assert(!begins_with(s.skip(0), p));
    if s.len() > 0 {
        let d = s.drop_first();
        if occurs_in(d, p) {
            let i = choose|i: int| 0 <= i <= d.len() && begins_with(#[trigger] d.skip(i), p);
            assert(d.skip(i) =~= s.skip(i + 1));
        }
        lemma_nothing_to_replace(d, p, w);
        assert(seq![s[0]] + d =~= s);
    }
}

/// The texts of strings are theirs, one for one, in order.
pub proof fn lemma_texts(v: Seq<String>, s: String, i: int)
    ensures
        texts(v).len() == v.len(),
        0 <= i < v.len() ==> texts(v)[i] == v[i]@,
        texts(v.push(s)) == texts(v).push(s@),
{
    assert(texts(v.push(s)) =~= texts(v).push(s@));
}

/// Beyond ASCII white are the next line, the blanks of other scripts, and the separators
/// of lines and paragraphs.
pub proof fn lemma_white_beyond_ascii(c: char)
    requires
        c as int > 127,
    ensures
        char_is_whitespace(c) <==> c as int == 0x85 || c as int == 0xa0 || c as int == 0x1680
            || 0x2000 <= c as int <= 0x200a || c as int == 0x2028 || c as int == 0x2029 || c as int
            == 0x202f || c as int == 0x205f || c as int == 0x3000,
{
}

} // verus!
