//! What the text helpers do, character by character.
use crate::base::order::alphabetical;
use crate::base::split::{
    after_first, names_in, pieces, replaced, squeezed, trimmed, white_space,
};
use crate::base::text::{decimal, digits_value, number_in, padded, NumberFault};
use vstd::prelude::*;

verus! {

/// Two texts stand in the order of the first characters in which they differ; a text
/// comes before every longer one that begins with it.
pub proof fn law_first_difference_decides(a: Seq<char>, b: Seq<char>, k: int)
    requires
        0 <= k <= a.len(),
        k <= b.len(),
        forall|i: int| 0 <= i < k ==> a[i] == b[i],
    ensures
        k < a.len() && k < b.len() && a[k] != b[k] ==> (alphabetical(a, b) <==> a[k] < b[k]),
        k == a.len() ==> alphabetical(a, b),
        k == b.len() && k < a.len() ==> !alphabetical(a, b),
    decreases k,
{
    if k > 0 {
        law_first_difference_decides(a.skip(1), b.skip(1), k - 1);
    }
}

/// What follows the first of a character: all behind it, where it stands.
pub proof fn law_tail_follows_the_first(head: Seq<char>, c: char, tail: Seq<char>)
    requires
        !head.contains(c),
    ensures
        after_first(head.push(c) + tail, c) == Some(tail),
        after_first(head, c) is None,
    decreases head.len(),
{
    let text = head.push(c) + tail;
    if head.len() > 0 {
        let rest = head.skip(1);
        assert(head.contains(head[0]));
        assert forall|i: int| 0 <= i < rest.len() implies rest[i] != c by {
            assert(head.contains(head[i + 1]));
        }
        law_tail_follows_the_first(rest, c, tail);
        assert(text.skip(1) =~= rest.push(c) + tail);
    } else {
        assert(text[0] == c);
        assert(text.skip(1) =~= tail);
    }
}

/// Replacing a character changes it wherever it stands, and nothing else.
pub proof fn law_replacing_is_by_character(text: Seq<char>, from: char, to: char, i: int)
    requires
        0 <= i < text.len(),
    ensures
        replaced(text, from, to).len() == text.len(),
        text[i] == from ==> replaced(text, from, to)[i] == to,
        text[i] != from ==> replaced(text, from, to)[i] == text[i],
{
}

/// Squeezing keeps every character but white space, in order.
pub proof fn law_squeezing_drops_white_space(text: Seq<char>, c: char)
    ensures
        squeezed(Seq::<char>::empty()).len() == 0,
        white_space(c) ==> squeezed(text.push(c)) == squeezed(text),
        !white_space(c) ==> squeezed(text.push(c)) == squeezed(text).push(c),
        white_space(' ') && white_space('\t') && white_space('\n'),
{
    reveal(Seq::filter);
    assert(text.push(c).drop_last() =~= text);
}

/// Trimming takes the white space from both ends, and leaves what stands between.
pub proof fn law_trimming_leaves_the_core(head: Seq<char>, core: Seq<char>, tail: Seq<char>)
    requires
        core.len() > 0,
        !white_space(core[0]),
        !white_space(core.last()),
        forall|i: int| 0 <= i < head.len() ==> #[trigger] white_space(head[i]),
        forall|i: int| 0 <= i < tail.len() ==> #[trigger] white_space(tail[i]),
    ensures
        trimmed(head + core + tail) == core,
        trimmed(tail).len() == 0,
    decreases head.len() + tail.len(),
{
    let text = head + core + tail;
    if head.len() > 0 {
        let rest = head.skip(1);
        assert forall|i: int| 0 <= i < rest.len() implies #[trigger] white_space(rest[i]) by {
            assert(white_space(head[i + 1]));
        }
        law_trimming_leaves_the_core(rest, core, tail);
        assert(text.skip(1) =~= rest + core + tail);
        assert(white_space(head[0]));
    } else if tail.len() > 0 {
        let rest = tail.drop_last();
        assert forall|i: int| 0 <= i < rest.len() implies #[trigger] white_space(rest[i]) by {
            assert(white_space(tail[i]));
        }
        law_trimming_leaves_the_core(head, core, rest);
        assert(text.drop_last() =~= head + core + rest);
        assert(white_space(tail[tail.len() - 1]));
        assert(text[0] == core[0]);
        assert(text.last() == tail.last());
    } else {
        assert(text =~= core);
    }
    lemma_white_is_trimmed(tail);
}

proof fn lemma_white_is_trimmed(text: Seq<char>)
    requires
        forall|i: int| 0 <= i < text.len() ==> #[trigger] white_space(text[i]),
    ensures
        trimmed(text).len() == 0,
    decreases text.len(),
{
    if text.len() > 0 {
        let rest = text.skip(1);
        assert forall|i: int| 0 <= i < rest.len() implies #[trigger] white_space(rest[i]) by {
            assert(white_space(text[i + 1]));
        }
        assert(white_space(text[0]));
        lemma_white_is_trimmed(rest);
    }
}

/// A number in decimal: one digit below ten, and for every digit more the digits of
/// the number without it.
pub proof fn law_decimal_is_digit_by_digit(n: nat, d: nat)
    requires
        d < 10,
    ensures
        n == 0 ==> decimal(10 * n + d) == seq![('0' as int + d) as char],
        n > 0 ==> decimal(10 * n + d) == decimal(n).push(('0' as int + d) as char),
{
    assert((10 * n + d) / 10 == n);
    assert((10 * n + d) % 10 == d);
}

/// Padding puts zeros before a number up to its width, and never cuts it.
pub proof fn law_padding_is_with_zeros(n: nat, width: nat, i: int)
    ensures
        padded(n, width).len() >= width,
        padded(n, width).len() >= decimal(n).len(),
        padded(n, width).len() == width || padded(n, width) == decimal(n),
        padded(n, width).skip(padded(n, width).len() - decimal(n).len()) == decimal(n),
        0 <= i < padded(n, width).len() - decimal(n).len() ==> padded(n, width)[i] == '0',
{
    assert(padded(n, width).skip(padded(n, width).len() - decimal(n).len()) =~= decimal(n));
}

/// A number is read digit by digit: each makes ten of what was before it. What is no
/// digit is a fault, and so is a number beyond 64 bits. A plus sign may stand before
/// the digits; no digits are a fault.
pub proof fn law_numbers_are_read_digit_by_digit(text: Seq<char>, n: int, c: char)
    requires
        number_in(text) == Ok::<int, NumberFault>(n),
        text.len() > 0,
    ensures
        '0' <= c && c <= '9' && 10 * n + (c as int - '0' as int) <= u64::MAX ==> number_in(
            text.push(c),
        ) == Ok::<int, NumberFault>(10 * n + (c as int - '0' as int)),
        '0' <= c && c <= '9' && 10 * n + (c as int - '0' as int) > u64::MAX ==> number_in(
            text.push(c),
        ) == Err::<int, NumberFault>(NumberFault::TooLarge),
        !('0' <= c && c <= '9') ==> number_in(text.push(c)) == Err::<int, NumberFault>(
            NumberFault::InvalidDigit,
        ),
        text[0] != '+' ==> number_in(seq!['+'] + text) == Ok::<int, NumberFault>(n),
        0 <= n <= u64::MAX,
{
    let more = text.push(c);
    if text[0] == '+' {
        assert(text.len() > 1);
        assert(more.skip(1).drop_last() =~= text.skip(1));
        assert(more.skip(1).last() == c);
        lemma_value_bounds(text.skip(1));
    } else {
        assert(more.drop_last() =~= text);
        lemma_value_bounds(text);
    }
    assert((seq!['+'] + text).skip(1) =~= text);
}

proof fn lemma_value_bounds(digits: Seq<char>)
    ensures
        digits_value(digits) matches Ok(n) ==> 0 <= n <= u64::MAX,
    decreases digits.len(),
{
    if digits.len() > 0 {
        lemma_value_bounds(digits.drop_last());
    }
}

/// A text of one character is the number of its digit; anything else of that length,
/// and the empty text, is a fault.
pub proof fn law_single_digits_are_read(c: char)
    ensures
        '0' <= c && c <= '9' ==> number_in(seq![c]) == Ok::<int, NumberFault>(
            c as int - '0' as int,
        ),
        !('0' <= c && c <= '9') ==> number_in(seq![c]) == Err::<int, NumberFault>(
            NumberFault::InvalidDigit,
        ),
        number_in(Seq::<char>::empty()) == Err::<int, NumberFault>(NumberFault::Empty),
{
    assert(seq![c].drop_last() =~= Seq::<char>::empty());
    assert(digits_value(Seq::<char>::empty()) == Ok::<int, NumberFault>(0));
    assert(seq![c].last() == c);
}

/// A list has the name behind each comma, trimmed, unless nothing of it is left.
pub proof fn law_names_stand_between_commas(list: Seq<char>, piece: Seq<char>)
    requires
        !piece.contains(','),
    ensures
        trimmed(piece).len() > 0 ==> names_in(list.push(',') + piece) == names_in(list).push(
            trimmed(piece),
        ),
        trimmed(piece).len() == 0 ==> names_in(list.push(',') + piece) == names_in(list),
        trimmed(piece).len() > 0 ==> names_in(piece) == seq![trimmed(piece)],
        trimmed(piece).len() == 0 ==> names_in(piece).len() == 0,
{
    lemma_last_piece(list, piece);
    let strip = |p: Seq<char>| trimmed(p);
    let filled = |p: Seq<char>| p.len() > 0;
    let before = pieces(list).map_values(strip);
    let all = pieces(list.push(',') + piece).map_values(strip);
    assert(all =~= before.push(trimmed(piece)));
    assert(all.drop_last() =~= before);
    let alone = pieces(piece).map_values(strip);
    assert(alone =~= seq![trimmed(piece)]);
    assert(alone.drop_last() =~= Seq::empty());
    reveal(Seq::filter);
    assert(alone.drop_last().filter(filled) =~= Seq::empty());
}

proof fn lemma_last_piece(list: Seq<char>, piece: Seq<char>)
    requires
        !piece.contains(','),
    ensures
        pieces(list.push(',') + piece) == pieces(list).push(piece),
        pieces(piece) == seq![piece],
    decreases piece.len(),
{
    let whole = list.push(',') + piece;
    if piece.len() == 0 {
        assert(whole =~= list.push(','));
        assert(whole.drop_last() =~= list);
        assert(piece =~= Seq::empty());
    } else {
        let rest = piece.drop_last();
        assert forall|i: int| 0 <= i < rest.len() implies rest[i] != ',' by {
            assert(piece.contains(piece[i]));
        }
        assert(piece.contains(piece[piece.len() - 1]));
        lemma_last_piece(list, rest);
        assert(whole.drop_last() =~= list.push(',') + rest);
        assert(rest.push(piece.last()) =~= piece);
        assert(pieces(whole) =~= pieces(list).push(piece));
        assert(pieces(piece) =~= seq![piece]);
    }
}

/// White space is the blank, the controls from the tab to the carriage return, the next
/// line, the hard blank, and the wider blanks and line ends; no letter, digit or mark of
/// the seven-bit code is.
pub proof fn law_white_space_is_blank(c: char)
    ensures
        (c as int) < 0x80 ==> (white_space(c) <==> c == ' ' || c == '\t' || c == '\n' || c as int
            == 0xb || c as int == 0xc || c == '\r'),
        0x80 <= c as int && (c as int) < 0x1000 ==> (white_space(c) <==> c as int == 0x85 || c as int
            == 0xa0),
        0x1000 <= c as int && (c as int) < 0x2000 ==> (white_space(c) <==> c as int == 0x1680),
        0x2000 <= c as int && (c as int) < 0x3000 ==> (white_space(c) <==> c as int <= 0x200a || c as int
            == 0x2028 || c as int == 0x2029 || c as int == 0x202f || c as int == 0x205f),
        0x3000 <= c as int ==> (white_space(c) <==> c as int == 0x3000),
{
}

} // verus!
