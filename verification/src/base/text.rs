//! Text helpers: comparison, characters and decimal numbers.
use vstd::prelude::*;

verus! {

/// `String::push` appends one character.
pub assume_specification[ String::push ](s: &mut String, ch: char)
    ensures
        final(s)@ == old(s)@.push(ch),
;

/// Whether two texts have the same characters.
pub fn same_text(a: &str, b: &str) -> (same: bool)
    ensures
        same == (a@ == b@),
{
    a.to_owned() == b.to_owned()
}

/// Whether a text has no characters.
pub fn is_blank(text: &str) -> (blank: bool)
    ensures
        blank == (text@.len() == 0),
{
    let blank = same_text(text, "");
    proof {
        reveal_strlit("");
        assert(text@.len() == 0 ==> text@ =~= ""@);
    }
    blank
}

/// The characters of a text.
pub fn chars_of(s: &str) -> (chars: Vec<char>)
    ensures
        chars@ == s@,
{
    let mut out: Vec<char> = Vec::new();
    for c in iter: s.chars()
        invariant
            out@ == s@.take(iter.index()),
            iter.seq() == s@,
    {
        out.push(c);
    }
    assert(s@.take(s@.len() as int) =~= s@);
    out
}

/// The text of a slice of characters.
pub fn text_of(chars: &[char]) -> (s: String)
    ensures
        s@ == chars@,
{
    let mut out: String = String::new();
    let mut i: usize = 0;
    while i < chars.len()
        invariant
            i <= chars@.len(),
            out@ == chars@.take(i as int),
        decreases chars@.len() - i,
    {
        out.push(chars[i]);
        i = i + 1;
        assert(chars@.take(i as int) =~= chars@.take(i - 1).push(chars@[i - 1]));
    }
    assert(chars@.take(chars@.len() as int) =~= chars@);
    out
}

/// The character of a decimal digit.
pub open spec fn digit_char(d: int) -> char {
    (48 + d) as char
}

/// A number in decimal, without leading zeros.
pub open spec fn decimal(n: nat) -> Seq<char>
    decreases n,
{
    if n < 10 {
        seq![digit_char(n as int)]
    } else {
        decimal(n / 10).push(digit_char((n % 10) as int))
    }
}

/// A number in decimal, with leading zeros up to `width` digits.
pub open spec fn padded(n: nat, width: nat) -> Seq<char> {
    let digits = decimal(n);
    if digits.len() >= width {
        digits
    } else {
        Seq::new((width - digits.len()) as nat, |i: int| '0') + digits
    }
}

/// The character of a decimal digit.
pub fn digit_of(d: u64) -> (c: char)
    requires
        d < 10,
    ensures
        c == digit_char(d as int),
{
    (48 + d as u8) as char
}

/// A number in decimal.
pub fn decimal_chars(n: u64) -> (chars: Vec<char>)
    ensures
        chars@ == decimal(n as nat),
        chars@.len() > 0,
    decreases n,
{
    if n < 10 {
        let mut out: Vec<char> = Vec::new();
        out.push(digit_of(n));
        assert(out@ =~= decimal(n as nat));
        out
    } else {
        let mut out = decimal_chars(n / 10);
        out.push(digit_of(n % 10));
        out
    }
}

/// A number in decimal.
pub fn decimal_text(n: u64) -> (s: String)
    ensures
        s@ == decimal(n as nat),
{
    text_of(decimal_chars(n).as_slice())
}

/// A number in decimal, with leading zeros up to `width` digits.
pub fn padded_text(n: u64, width: usize) -> (s: String)
    ensures
        s@ == padded(n as nat, width as nat),
{
    let digits = decimal_chars(n);
    let mut out: Vec<char> = Vec::new();
    let ghost zeros = Seq::new(
        (if digits@.len() >= width {
            0
        } else {
            width - digits@.len()
        }) as nat,
        |i: int| '0',
    );
    while out.len() + digits.len() < width
        invariant
            out@.len() <= zeros.len(),
            out@ == zeros.take(out@.len() as int),
            zeros == Seq::new(
                (if digits@.len() >= width {
                    0
                } else {
                    width - digits@.len()
                }) as nat,
                |i: int| '0',
            ),
        decreases width - out@.len(),
    {
        out.push('0');
        assert(out@ =~= zeros.take(out@.len() as int));
    }
    assert(out@ =~= zeros);
    let mut i: usize = 0;
    while i < digits.len()
        invariant
            i <= digits@.len(),
            out@ == zeros + digits@.take(i as int),
        decreases digits@.len() - i,
    {
        out.push(digits[i]);
        i = i + 1;
        assert(digits@.take(i as int) =~= digits@.take(i - 1).push(digits@[i - 1]));
    }
    assert(out@ =~= padded(n as nat, width as nat)) by {
        assert(digits@.take(digits@.len() as int) =~= digits@);
    }
    text_of(out.as_slice())
}

/// The characters of two texts, one after the other.
pub fn join(head: &str, tail: &str) -> (s: String)
    ensures
        s@ == head@ + tail@,
{
    String::from_str(head).concat(tail)
}

/// Why a text is no unsigned number.
#[derive(Clone, Copy, Debug, PartialEq, Eq, Structural)]
pub enum NumberFault {
    Empty,
    InvalidDigit,
    TooLarge,
}

/// The number that digits spell, read from the left up to the first fault.
pub open spec fn digits_value(digits: Seq<char>) -> Result<int, NumberFault>
    decreases digits.len(),
{
    if digits.len() == 0 {
        Ok(0)
    } else {
        match digits_value(digits.drop_last()) {
            Err(fault) => Err(fault),
            Ok(n) => {
                let c = digits.last();
                if !('0' <= c && c <= '9') {
                    Err(NumberFault::InvalidDigit)
                } else if 10 * n + (c as int - 48) > u64::MAX {
                    Err(NumberFault::TooLarge)
                } else {
                    Ok(10 * n + (c as int - 48))
                }
            },
        }
    }
}

/// The unsigned 64-bit number that a text spells: digits, with a plus sign before
/// them or none.
pub open spec fn number_in(text: Seq<char>) -> Result<int, NumberFault> {
    if text.len() == 0 {
        Err(NumberFault::Empty)
    } else if text[0] == '+' && text.len() == 1 {
        Err(NumberFault::InvalidDigit)
    } else if text[0] == '+' {
        digits_value(text.skip(1))
    } else {
        digits_value(text)
    }
}

/// Read an unsigned 64-bit number.
pub fn parse_u64(text: &str) -> (n: Result<u64, NumberFault>)
    ensures
        match n {
            Ok(v) => number_in(text@) == Ok::<int, NumberFault>(v as int),
            Err(fault) => number_in(text@) == Err::<int, NumberFault>(fault),
        },
{
    let chars = chars_of(text);
    if chars.len() == 0 {
        return Err(NumberFault::Empty);
    }
    let start: usize = if chars[0] == '+' {
        1
    } else {
        0
    };
    if start == 1 && chars.len() == 1 {
        return Err(NumberFault::InvalidDigit);
    }
    let ghost digits = if start == 1 {
        text@.skip(1)
    } else {
        text@
    };
    let mut n: u64 = 0;
    let mut i: usize = start;
    while i < chars.len()
        invariant
            start <= i <= chars@.len(),
            start <= 1,
            chars@ == text@,
            digits.len() == chars@.len() - start,
            forall|k: int| 0 <= k < digits.len() ==> #[trigger] digits[k] == chars@[k + start],
            digits_value(digits.take(i - start)) == Ok::<int, NumberFault>(n as int),
            number_in(text@) == digits_value(digits),
        decreases chars@.len() - i,
    {
        let c: char = chars[i];
        let ghost k = i - start;
        proof {
            assert(digits.take(k + 1).drop_last() =~= digits.take(k));
            assert(digits.take(k + 1).last() == c);
            if digits_value(digits.take(k + 1)) is Err {
                lemma_fault_stays(digits, k + 1);
            }
        }
        if !('0' <= c && c <= '9') {
            return Err(NumberFault::InvalidDigit);
        }
        let d: u64 = (c as u32 - 48) as u64;
        let wide: u128 = 10 * (n as u128) + d as u128;
        if wide > u64::MAX as u128 {
            return Err(NumberFault::TooLarge);
        }
        n = wide as u64;
        i = i + 1;
    }
    assert(digits.take(digits.len() as int) =~= digits);
    Ok(n)
}

/// A fault in the digits so far is the fault of the whole.
proof fn lemma_fault_stays(digits: Seq<char>, k: int)
    requires
        0 <= k <= digits.len(),
        digits_value(digits.take(k)) is Err,
    ensures
        digits_value(digits) == digits_value(digits.take(k)),
    decreases digits.len(),
{
    if k < digits.len() {
        assert(digits.drop_last().take(k) =~= digits.take(k));
        lemma_fault_stays(digits.drop_last(), k);
    } else {
        assert(digits.take(k) =~= digits);
    }
}

/// What is wrong with a text that is no number, in words.
pub open spec fn fault_words(fault: NumberFault) -> Seq<char> {
    match fault {
        NumberFault::Empty => "cannot parse integer from empty string"@,
        NumberFault::InvalidDigit => "invalid digit found in string"@,
        NumberFault::TooLarge => "number too large to fit in target type"@,
    }
}

/// What is wrong with a text that is no number, in words.
pub fn fault_text(fault: NumberFault) -> (s: &'static str)
    ensures
        s@ == fault_words(fault),
{
    match fault {
        NumberFault::Empty => "cannot parse integer from empty string",
        NumberFault::InvalidDigit => "invalid digit found in string",
        NumberFault::TooLarge => "number too large to fit in target type",
    }
}

/// The value of a decimal numeral is the number, whatever its zeros.
pub proof fn law_numbers_read_back(n: nat)
    requires
        n <= u64::MAX,
    ensures
        number_in(decimal(n)) == Ok::<int, NumberFault>(n as int),
{
    lemma_digits_read_back(n);
    lemma_first_digit(n);
}

proof fn lemma_digits_read_back(n: nat)
    requires
        n <= u64::MAX,
    ensures
        digits_value(decimal(n)) == Ok::<int, NumberFault>(n as int),
        decimal(n).len() > 0,
    decreases n,
{
    if n < 10 {
        assert(decimal(n).drop_last() =~= Seq::<char>::empty());
        assert(digits_value(Seq::<char>::empty()) == Ok::<int, NumberFault>(0));
        assert(decimal(n).last() as int == 48 + n);
    } else {
        lemma_digits_read_back(n / 10);
        assert(decimal(n).drop_last() =~= decimal(n / 10));
        assert(decimal(n).last() as int == 48 + n % 10);
    }
}

proof fn lemma_first_digit(n: nat)
    ensures
        decimal(n).len() > 0,
        decimal(n)[0] != '+',
    decreases n,
{
    if n >= 10 {
        lemma_first_digit(n / 10);
    }
}

/// Whether a text begins with another.
pub open spec fn begins_with(text: Seq<char>, head: Seq<char>) -> bool {
    text.len() >= head.len() && text.take(head.len() as int) == head
}

/// Whether a text ends with another.
pub open spec fn finishes_with(text: Seq<char>, tail: Seq<char>) -> bool {
    text.len() >= tail.len() && text.skip(text.len() - tail.len()) == tail
}

/// Whether `part` stands in `text` at `at`.
fn stands_at(text: &Vec<char>, part: &Vec<char>, at: usize) -> (stands: bool)
    requires
        at + part@.len() <= text@.len(),
    ensures
        stands == (text@.subrange(at as int, at + part@.len()) == part@),
{
    assert(text.len() == text@.len());
    let mut i: usize = 0;
    while i < part.len()
        invariant
            i <= part@.len(),
            at + part@.len() <= text@.len() <= usize::MAX,
            forall|k: int| 0 <= k < i ==> text@[at + k] == #[trigger] part@[k],
        decreases part@.len() - i,
    {
        if text[at + i] != part[i] {
            assert(text@.subrange(at as int, at + part@.len())[i as int] != part@[i as int]);
            return false;
        }
        i = i + 1;
    }
    assert(text@.subrange(at as int, at + part@.len()) =~= part@);
    true
}

/// Whether a text begins with another.
pub fn starts_with(text: &str, head: &str) -> (yes: bool)
    ensures
        yes == begins_with(text@, head@),
{
    let t = chars_of(text);
    let h = chars_of(head);
    if t.len() < h.len() {
        return false;
    }
    assert(t@.subrange(0, h@.len() as int) =~= t@.take(h@.len() as int));
    stands_at(&t, &h, 0)
}

/// Whether a text ends with another.
pub fn ends_with(text: &str, tail: &str) -> (yes: bool)
    ensures
        yes == finishes_with(text@, tail@),
{
    let t = chars_of(text);
    let h = chars_of(tail);
    if t.len() < h.len() {
        return false;
    }
    let at: usize = t.len() - h.len();
    assert(t@.subrange(at as int, at + h@.len()) =~= t@.skip(at as int));
    stands_at(&t, &h, at)
}

} // verus!
