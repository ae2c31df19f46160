//! Taking texts apart: at a character, at commas, without white space.
use crate::base::order::texts;
use crate::base::text::{chars_of, is_blank, text_of};
use vstd::prelude::*;

verus! {

/// Whether a character has the Unicode property of white space.
pub open spec fn white_space(c: char) -> bool {
    let point = c as u32;
    ||| 0x9 <= point <= 0xd
    ||| point == 0x20
    ||| point == 0x85
    ||| point == 0xa0
    ||| point == 0x1680
    ||| 0x2000 <= point <= 0x200a
    ||| point == 0x2028
    ||| point == 0x2029
    ||| point == 0x202f
    ||| point == 0x205f
    ||| point == 0x3000
}

/// Whether a character has the Unicode property of white space.
pub fn is_white_space(c: char) -> (white: bool)
    ensures
        white == white_space(c),
{
    let point: u32 = c as u32;
    (0x9 <= point && point <= 0xd) || point == 0x20 || point == 0x85 || point == 0xa0 || point
        == 0x1680 || (0x2000 <= point && point <= 0x200a) || point == 0x2028 || point == 0x2029
        || point == 0x202f || point == 0x205f || point == 0x3000
}

/// The part of a text after the first of a character.
pub open spec fn after_first(text: Seq<char>, c: char) -> Option<Seq<char>>
    decreases text.len(),
{
    if text.len() == 0 {
        None
    } else if text[0] == c {
        Some(text.skip(1))
    } else {
        after_first(text.skip(1), c)
    }
}

/// The part of a text after the first of a character.
pub fn tail_after(text: &str, c: char) -> (tail: Option<String>)
    ensures
        match tail {
            Some(t) => after_first(text@, c) == Some(t@),
            None => after_first(text@, c) is None,
        },
{
    let chars = chars_of(text);
    let mut i: usize = 0;
    assert(text@.skip(0) =~= text@);
    while i < chars.len()
        invariant
            i <= chars@.len(),
            chars@ == text@,
            after_first(text@, c) == after_first(text@.skip(i as int), c),
        decreases chars@.len() - i,
    {
        assert(text@.skip(i as int).skip(1) =~= text@.skip(i + 1));
        if chars[i] == c {
            let tail = vstd::slice::slice_subrange(chars.as_slice(), i + 1, chars.len());
            assert(tail@ =~= text@.skip(i + 1));
            return Some(text_of(tail));
        }
        i = i + 1;
    }
    None
}

/// A text with one character in place of another.
pub open spec fn replaced(text: Seq<char>, from: char, to: char) -> Seq<char> {
    text.map_values(
        |c: char|
            if c == from {
                to
            } else {
                c
            },
    )
}

/// A text with one character in place of another.
pub fn replace_char(text: &str, from: char, to: char) -> (out: String)
    ensures
        out@ == replaced(text@, from, to),
{
    let chars = chars_of(text);
    let mut out = String::new();
    let mut i: usize = 0;
    while i < chars.len()
        invariant
            i <= chars@.len(),
            chars@ == text@,
            out@ == replaced(text@, from, to).take(i as int),
        decreases chars@.len() - i,
    {
        let c: char = chars[i];
        out.push(
            if c == from {
                to
            } else {
                c
            },
        );
        assert(replaced(text@, from, to).take(i + 1) =~= replaced(text@, from, to).take(
            i as int,
        ).push(replaced(text@, from, to)[i as int]));
        i = i + 1;
    }
    assert(replaced(text@, from, to).take(i as int) =~= replaced(text@, from, to));
    out
}

/// A text without its white space.
pub open spec fn squeezed(text: Seq<char>) -> Seq<char> {
    text.filter(|c: char| !white_space(c))
}

/// A text without its white space.
pub fn squeeze(text: &str) -> (out: String)
    ensures
        out@ == squeezed(text@),
{
    let chars = chars_of(text);
    let ghost keep = |c: char| !white_space(c);
    let mut out = String::new();
    let mut i: usize = 0;
    proof {
        reveal(Seq::filter);
        assert(text@.take(0).filter(keep) =~= Seq::empty());
    }
    while i < chars.len()
        invariant
            i <= chars@.len(),
            chars@ == text@,
            keep == (|c: char| !white_space(c)),
            out@ == text@.take(i as int).filter(keep),
        decreases chars@.len() - i,
    {
        proof {
            reveal(Seq::filter);
            assert(text@.take(i + 1).drop_last() =~= text@.take(i as int));
        }
        let c: char = chars[i];
        if !is_white_space(c) {
            out.push(c);
        }
        i = i + 1;
    }
    assert(text@.take(i as int) =~= text@);
    out
}

/// A text without the white space at its ends.
pub open spec fn trimmed(text: Seq<char>) -> Seq<char>
    decreases text.len(),
{
    if text.len() == 0 {
        text
    } else if white_space(text[0]) {
        trimmed(text.skip(1))
    } else if white_space(text.last()) {
        trimmed(text.drop_last())
    } else {
        text
    }
}

/// A text without the white space at its ends.
pub fn trim(text: &[char]) -> (out: String)
    ensures
        out@ == trimmed(text@),
{
    let mut lo: usize = 0;
    let mut hi: usize = text.len();
    assert(text@.subrange(0, hi as int) =~= text@);
    while lo < hi && is_white_space(text[lo])
        invariant
            lo <= hi == text@.len(),
            trimmed(text@) == trimmed(text@.subrange(lo as int, hi as int)),
        decreases hi - lo,
    {
        assert(text@.subrange(lo as int, hi as int).skip(1) =~= text@.subrange(
            lo + 1,
            hi as int,
        ));
        lo = lo + 1;
    }
    while lo < hi && is_white_space(text[hi - 1])
        invariant
            lo <= hi <= text@.len(),
            lo < hi ==> !white_space(text@[lo as int]),
            trimmed(text@) == trimmed(text@.subrange(lo as int, hi as int)),
        decreases hi - lo,
    {
        assert(text@.subrange(lo as int, hi as int).drop_last() =~= text@.subrange(
            lo as int,
            hi - 1,
        ));
        hi = hi - 1;
    }
    let part = vstd::slice::slice_subrange(text, lo, hi);
    text_of(part)
}

/// The pieces of a text between commas. There is always one.
pub open spec fn pieces(text: Seq<char>) -> Seq<Seq<char>>
    decreases text.len(),
{
    if text.len() == 0 {
        seq![text]
    } else {
        let before = pieces(text.drop_last());
        if text.last() == ',' {
            before.push(Seq::empty())
        } else {
            before.update(before.len() - 1, before.last().push(text.last()))
        }
    }
}

/// The names in a list: what stands between commas, without white space at the ends,
/// and without what is empty.
pub open spec fn names_in(text: Seq<char>) -> Seq<Seq<char>> {
    pieces(text).map_values(|p: Seq<char>| trimmed(p)).filter(|p: Seq<char>| p.len() > 0)
}

/// The pieces of a text between commas.
fn split_commas(text: &str) -> (out: Vec<Vec<char>>)
    ensures
        out@.map_values(|p: Vec<char>| p@) == pieces(text@),
{
    let chars = chars_of(text);
    let mut done: Vec<Vec<char>> = Vec::new();
    let mut open: Vec<char> = Vec::new();
    let mut i: usize = 0;
    assert(text@.take(0) =~= Seq::empty());
    assert(done@.map_values(|p: Vec<char>| p@).push(open@) =~= pieces(text@.take(0)));
    while i < chars.len()
        invariant
            i <= chars@.len(),
            chars@ == text@,
            done@.map_values(|p: Vec<char>| p@).push(open@) == pieces(text@.take(i as int)),
        decreases chars@.len() - i,
    {
        let c: char = chars[i];
        let ghost before = done@.map_values(|p: Vec<char>| p@);
        let ghost last = open@;
        assert(text@.take(i + 1).drop_last() =~= text@.take(i as int));
        if c == ',' {
            done.push(open);
            open = Vec::new();
            assert(done@.map_values(|p: Vec<char>| p@) =~= before.push(last));
            assert(open@ =~= Seq::<char>::empty());
        } else {
            open.push(c);
            assert(before.push(last).update(before.len() as int, last.push(c)) =~= before.push(
                last.push(c),
            ));
        }
        i = i + 1;
    }
    assert(text@.take(i as int) =~= text@);
    let ghost before = done@.map_values(|p: Vec<char>| p@);
    let ghost last = open@;
    done.push(open);
    assert(done@.map_values(|p: Vec<char>| p@) =~= before.push(last));
    done
}

/// The names in a list with commas.
pub fn split_names(text: &str) -> (names: Vec<String>)
    ensures
        texts(names@) == names_in(text@),
{
    let parts = split_commas(text);
    let ghost all = pieces(text@).map_values(|p: Seq<char>| trimmed(p));
    let ghost keep = |p: Seq<char>| p.len() > 0;
    let mut names: Vec<String> = Vec::new();
    let mut i: usize = 0;
    proof {
        reveal(Seq::filter);
        assert(all.take(0).filter(keep) =~= texts(names@));
    }
    while i < parts.len()
        invariant
            i <= parts@.len(),
            parts@.map_values(|p: Vec<char>| p@) == pieces(text@),
            all == pieces(text@).map_values(|p: Seq<char>| trimmed(p)),
            all.len() == parts@.len(),
            keep == (|p: Seq<char>| p.len() > 0),
            texts(names@) == all.take(i as int).filter(keep),
        decreases parts@.len() - i,
    {
        let name = trim(parts[i].as_slice());
        proof {
            reveal(Seq::filter);
            assert(parts@.map_values(|p: Vec<char>| p@)[i as int] == parts@[i as int]@);
            assert(all[i as int] == name@);
            assert(all.take(i + 1).drop_last() =~= all.take(i as int));
        }
        let ghost before = texts(names@);
        let ghost added = name@;
        if !is_blank(name.as_str()) {
            names.push(name);
            assert(texts(names@) =~= before.push(added));
        }
        i = i + 1;
    }
    assert(all.take(i as int) =~= all);
    names
}

} // verus!
