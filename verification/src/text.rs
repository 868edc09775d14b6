//! Text operations, each stated over the characters of its arguments.

use vstd::prelude::*;
use vstd::string::*;

verus! {

/// Whether `c` has the Unicode property `White_Space`.
pub open spec fn white_space(c: char) -> bool {
    ||| '\u{9}' <= c <= '\u{d}'
    ||| c == ' '
    ||| c == '\u{85}'
    ||| c == '\u{a0}'
    ||| c == '\u{1680}'
    ||| '\u{2000}' <= c <= '\u{200a}'
    ||| c == '\u{2028}'
    ||| c == '\u{2029}'
    ||| c == '\u{202f}'
    ||| c == '\u{205f}'
    ||| c == '\u{3000}'
}

/// Whether `s` holds nothing but white space.
pub open spec fn blank(s: Seq<char>) -> bool {
    forall|i: int| 0 <= i < s.len() ==> white_space(#[trigger] s[i])
}

/// `src` with each occurrence of `from` replaced by `to`, found from left to right without overlap.
pub open spec fn replaced(src: Seq<char>, from: Seq<char>, to: Seq<char>) -> Seq<char>
    decreases src.len(),
{
    if from.len() == 0 || src.len() < from.len() {
        src
    } else if src.take(from.len() as int) == from {
        to + replaced(src.skip(from.len() as int), from, to)
    } else {
        seq![src[0]] + replaced(src.skip(1), from, to)
    }
}

/// The elements of `parts` with `sep` between each two neighbours.
pub open spec fn joined(parts: Seq<Seq<char>>, sep: Seq<char>) -> Seq<char>
    decreases parts.len(),
{
    if parts.len() == 0 {
        Seq::empty()
    } else if parts.len() == 1 {
        parts[0]
    } else {
        joined(parts.drop_last(), sep) + sep + parts.last()
    }
}

/// The texts that the strings of `v` hold.
pub open spec fn texts(v: Seq<String>) -> Seq<Seq<char>> {
    v.map_values(|s: String| s@)
}

pub fn is_white_space(c: char) -> (r: bool)
    ensures
        r == white_space(c),
{
    ('\u{9}' <= c && c <= '\u{d}') || c == ' ' || c == '\u{85}' || c == '\u{a0}' || c == '\u{1680}'
        || ('\u{2000}' <= c && c <= '\u{200a}') || c == '\u{2028}' || c == '\u{2029}' || c
        == '\u{202f}' || c == '\u{205f}' || c == '\u{3000}'
}

pub fn is_blank(s: &str) -> (r: bool)
    ensures
        r == blank(s@),
{
    let n: usize = s.unicode_len();
    let mut i: usize = 0;
    while i < n
        invariant
            i <= n == s@.len(),
            forall|j: int| 0 <= j < i ==> white_space(#[trigger] s@[j]),
        decreases n - i,
    {
        if !is_white_space(s.get_char(i)) {
            return false;
        }
        i += 1;
    }
    true
}

pub fn same_text(a: &str, b: &str) -> (r: bool)
    ensures
        r == (a@ == b@),
{
    a.to_owned().eq(&b.to_owned())
}

pub fn starts_with(s: &str, prefix: &str) -> (r: bool)
    ensures
        r == prefix@.is_prefix_of(s@),
{
    let n: usize = prefix.unicode_len();
    if s.unicode_len() < n {
        return false;
    }
    same_text(s.substring_char(0, n), prefix)
}

/// The text of `a` followed by the text of `b`.
pub fn concat(a: &str, b: &str) -> (r: String)
    ensures
        r@ == a@ + b@,
{
    let mut r = a.to_owned();
    r.append(b);
    r
}

/// The position of the first `c` in `s`, or `None`.
pub fn find_char(s: &str, c: char) -> (r: Option<usize>)
    ensures
        match r {
            Some(i) => i < s@.len() && s@[i as int] == c && !s@.take(i as int).contains(c),
            None => !s@.contains(c),
        },
{
    let n: usize = s.unicode_len();
    let mut i: usize = 0;
    while i < n
        invariant
            i <= n == s@.len(),
            forall|j: int| 0 <= j < i ==> s@[j] != c,
        decreases n - i,
    {
        if s.get_char(i) == c {
            return Some(i);
        }
        i += 1;
    }
    None
}

pub fn join(parts: &Vec<String>, sep: &str) -> (r: String)
    ensures
        r@ == joined(texts(parts@), sep@),
{
    let mut r = String::new();
    let ghost all = texts(parts@);
    let mut i: usize = 0;
    while i < parts.len()
        invariant
            all == texts(parts@),
            i <= parts@.len(),
            r@ == joined(all.take(i as int), sep@),
        decreases parts@.len() - i,
    {
        assert(all.take(i + 1).drop_last() =~= all.take(i as int));
        if i != 0 {
            r.append(sep);
        }
        r.append(parts[i].as_str());
        i += 1;
    }
    assert(all.take(i as int) =~= all);
    r
}

/// `src` with each occurrence of the non-empty `from` replaced by `to`.
pub fn replace(src: &str, from: &str, to: &str) -> (r: String)
    requires
        from@.len() > 0,
    ensures
        r@ == replaced(src@, from@, to@),
{
    let mut r = String::new();
    let n: usize = src.unicode_len();
    let m: usize = from.unicode_len();
    let mut i: usize = 0;
    assert(src@.skip(0) =~= src@);
    while i < n
        invariant
            i <= n == src@.len(),
            m == from@.len() > 0,
            r@ + replaced(src@.skip(i as int), from@, to@) == replaced(src@, from@, to@),
        decreases n - i,
    {
        let ghost rest = src@.skip(i as int);
        if n - i >= m && same_text(src.substring_char(i, i + m), from) {
            assert(rest.take(m as int) =~= src@.subrange(i as int, i + m));
            assert(rest.skip(m as int) =~= src@.skip(i + m));
            let ghost before = r@;
            r.append(to);
            assert(before + (to@ + replaced(src@.skip(i + m), from@, to@)) =~= r@ + replaced(
                src@.skip(i + m),
                from@,
                to@,
            ));
            i += m;
        } else {
            let ghost before = r@;
            r.append(src.substring_char(i, i + 1));
            assert(src@.subrange(i as int, i + 1) =~= seq![rest[0]]);
            assert(rest.skip(1) =~= src@.skip(i + 1));
            proof {
                if n - i < m {
                    assert(replaced(rest, from@, to@) == rest);
                    assert(replaced(rest.skip(1), from@, to@) == rest.skip(1));
                    assert(rest =~= seq![rest[0]] + rest.skip(1));
                } else {
                    assert(rest.take(m as int) =~= src@.subrange(i as int, i + m));
                }
            }
            assert(before + (seq![rest[0]] + replaced(src@.skip(i + 1), from@, to@)) =~= r@
                + replaced(src@.skip(i + 1), from@, to@));
            i += 1;
        }
    }
    assert(src@.skip(n as int) =~= Seq::<char>::empty());
    assert(r@ + Seq::<char>::empty() =~= r@);
    r
}

/// Replacing what does not occur changes nothing.
pub proof fn law_replacing_what_does_not_occur_changes_nothing(
    src: Seq<char>,
    from: Seq<char>,
    to: Seq<char>,
)
    requires
        from.len() > 0,
        forall|i: int|
            0 <= i <= src.len() - from.len() ==> #[trigger] src.subrange(i, i + from.len()) != from,
    ensures
        replaced(src, from, to) == src,
    decreases src.len(),
{
    if src.len() >= from.len() {
        assert(src.take(from.len() as int) =~= src.subrange(0int, 0int + from.len()));
        let rest = src.skip(1);
        assert forall|i: int| 0 <= i <= rest.len() - from.len() implies #[trigger] rest.subrange(
            i,
            i + from.len(),
        ) != from by {
            assert(rest.subrange(i, i + from.len()) =~= src.subrange(i + 1, i + 1 + from.len()));
        }
        law_replacing_what_does_not_occur_changes_nothing(rest, from, to);
        assert(seq![src[0]] + rest =~= src);
    }
}

/// A text that starts with an occurrence of `from`, after a part without one, starts with that part
/// and `to` once it is replaced, and goes on with what the remainder becomes.
pub proof fn law_replacing_takes_the_first_occurrence(
    before: Seq<char>,
    after: Seq<char>,
    from: Seq<char>,
    to: Seq<char>,
)
    requires
        from.len() > 0,
        forall|i: int|
            0 <= i < before.len() ==> #[trigger] (before + from + after).subrange(
                i,
                i + from.len(),
            ) != from,
    ensures
        replaced(before + from + after, from, to) == before + to + replaced(after, from, to),
    decreases before.len(),
{
    let src = before + from + after;
    let n = from.len() as int;
    if before.len() == 0 {
        assert(src.take(n) =~= from);
        assert(src.skip(n) =~= after);
        assert(before + to + replaced(after, from, to) =~= to + replaced(after, from, to));
    } else {
        assert(src.take(n) =~= src.subrange(0, 0int + from.len()));
        let rest = before.skip(1);
        let shorter = rest + from + after;
        assert(src.skip(1) =~= shorter);
        assert forall|i: int| 0 <= i < rest.len() implies #[trigger] shorter.subrange(
            i,
            i + from.len(),
        ) != from by {
            assert(shorter.subrange(i, i + from.len()) =~= src.subrange(
                i + 1,
                i + 1 + from.len(),
            ));
        }
        law_replacing_takes_the_first_occurrence(rest, after, from, to);
        assert(seq![src[0]] + (rest + to + replaced(after, from, to)) =~= before + to + replaced(
            after,
            from,
            to,
        ));
    }
}

/// Joined texts start with the first of them. Then come the separator and the others, joined, where
/// there are others.
pub proof fn law_joining_goes_from_first_to_last(
    first: Seq<char>,
    rest: Seq<Seq<char>>,
    sep: Seq<char>,
)
    ensures
        joined(Seq::empty(), sep) == Seq::<char>::empty(),
        joined(seq![first] + rest, sep) == if rest.len() == 0 {
            first
        } else {
            first + sep + joined(rest, sep)
        },
    decreases rest.len(),
{
    let all = seq![first] + rest;
    if rest.len() == 0 {
        assert(all =~= seq![first]);
    } else {
        let fewer = rest.drop_last();
        assert(all.drop_last() =~= seq![first] + fewer);
        assert(all.last() == rest.last());
        law_joining_goes_from_first_to_last(first, fewer, sep);
        if fewer.len() == 0 {
            assert(rest =~= seq![rest[0]]);
            assert(joined(rest, sep) == rest[0]);
        } else {
            assert(first + sep + joined(fewer, sep) + sep + rest.last() =~= first + sep + (joined(
                fewer,
                sep,
            ) + sep + rest.last()));
        }
    }
}

/// Each string keeps its text and its position.
pub proof fn law_texts_are_those_of_the_strings(v: Seq<String>)
    ensures
        texts(v).len() == v.len(),
        forall|i: int| 0 <= i < v.len() ==> (#[trigger] texts(v)[i]) == v[i]@,
{
}

/// A text is blank if all of its parts are, and a single character if it is white space.
pub proof fn law_blank_texts_have_blank_parts(a: Seq<char>, b: Seq<char>, c: char)
    ensures
        blank(Seq::empty()),
        blank(seq![c]) <==> white_space(c),
        blank(a + b) <==> blank(a) && blank(b),
{
    assert(seq![c][0] == c);
    if blank(a + b) {
        assert forall|i: int| 0 <= i < a.len() implies white_space(#[trigger] a[i]) by {
            assert((a + b)[i] == a[i]);
        }
        assert forall|i: int| 0 <= i < b.len() implies white_space(#[trigger] b[i]) by {
            assert((a + b)[a.len() + i] == b[i]);
        }
    }
}

} // verus!
