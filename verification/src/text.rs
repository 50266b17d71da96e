//! Fixed-width text: decimal numbers and padding with spaces.
//!
//! Text is modelled as a sequence of characters. The spec functions say what
//! a piece of text is; the executable functions append that text to a
//! `String`.
use vstd::prelude::*;

verus! {

/// The character of the decimal digit `d`.
pub open spec fn digit(d: int) -> char {
    if d == 0 {
        '0'
    } else if d == 1 {
        '1'
    } else if d == 2 {
        '2'
    } else if d == 3 {
        '3'
    } else if d == 4 {
        '4'
    } else if d == 5 {
        '5'
    } else if d == 6 {
        '6'
    } else if d == 7 {
        '7'
    } else if d == 8 {
        '8'
    } else {
        '9'
    }
}

/// The decimal digits of `n`, without leading zeros.
pub open spec fn decimal(n: nat) -> Seq<char>
    decreases n,
{
    if n < 10 {
        seq![digit(n as int)]
    } else {
        decimal(n / 10).push(digit((n % 10) as int))
    }
}

/// The decimal digits of `i`, after a minus sign where `i` is negative.
pub open spec fn signed_decimal(i: int) -> Seq<char> {
    if i < 0 {
        seq!['-'] + decimal((-i) as nat)
    } else {
        decimal(i as nat)
    }
}

/// `count` spaces; none where `count` is not positive.
pub open spec fn spaces(count: int) -> Seq<char> {
    Seq::new(
        if count > 0 {
            count as nat
        } else {
            0
        },
        |i: int| ' ',
    )
}

/// `s` moved to the right end of a field of `width` characters. Text that
/// fills the field or is longer stays as it is.
pub open spec fn align_right(s: Seq<char>, width: int) -> Seq<char> {
    spaces(width - s.len()) + s
}

/// `s` at the left end of a field of `width` characters.
pub open spec fn align_left(s: Seq<char>, width: int) -> Seq<char> {
    s + spaces(width - s.len())
}

/// `s` in the middle of a field of `width` characters. Where the padding
/// cannot be halved the extra space goes to the right.
pub open spec fn centered(s: Seq<char>, width: int) -> Seq<char> {
    let padding = width - s.len();
    spaces(padding / 2) + s + spaces(padding - padding / 2)
}

/// A decimal number has at least one digit.
pub proof fn lemma_decimal_len(n: nat)
    ensures
        decimal(n).len() >= 1,
        n < 10 ==> decimal(n).len() == 1,
        10 <= n < 100 ==> decimal(n).len() == 2,
        100 <= n < 1000 ==> decimal(n).len() == 3,
        1000 <= n < 10000 ==> decimal(n).len() == 4,
    decreases n,
{
    if n >= 10 {
        lemma_decimal_len(n / 10);
    }
}

/// The one-character text of a decimal digit.
fn digit_str(d: u8) -> (s: &'static str)
    requires
        d < 10,
    ensures
        s@ == seq![digit(d as int)],
{
    proof {
        reveal_strlit("0");
        reveal_strlit("1");
        reveal_strlit("2");
        reveal_strlit("3");
        reveal_strlit("4");
        reveal_strlit("5");
        reveal_strlit("6");
        reveal_strlit("7");
        reveal_strlit("8");
        reveal_strlit("9");
    }
    let s: &'static str = match d {
        0 => "0",
        1 => "1",
        2 => "2",
        3 => "3",
        4 => "4",
        5 => "5",
        6 => "6",
        7 => "7",
        8 => "8",
        _ => "9",
    };
    assert(s@ =~= seq![digit(d as int)]);
    s
}

/// Appends the decimal digits of `n`.
pub fn push_decimal(out: &mut String, n: u32)
    ensures
        final(out)@ == old(out)@ + decimal(n as nat),
    decreases n,
{
    if n >= 10 {
        push_decimal(out, n / 10);
    }
    let last: u8 = (n % 10) as u8;
    out.append(digit_str(last));
    assert(out@ =~= old(out)@ + decimal(n as nat));
}

/// Appends the decimal digits of `i`, after a minus sign where `i` is
/// negative.
pub fn push_signed_decimal(out: &mut String, i: i32)
    ensures
        final(out)@ == old(out)@ + signed_decimal(i as int),
{
    if i < 0 {
        proof {
            reveal_strlit("-");
        }
        out.append("-");
        let magnitude: u32 = (0 - (i as i64)) as u32;
        push_decimal(out, magnitude);
        assert(out@ =~= old(out)@ + signed_decimal(i as int));
    } else {
        push_decimal(out, i as u32);
    }
}

/// Appends `count` spaces.
pub fn push_spaces(out: &mut String, count: usize)
    ensures
        final(out)@ == old(out)@ + spaces(count as int),
{
    let mut done: usize = 0;
    while done < count
        invariant
            done <= count,
            out@ == old(out)@ + spaces(done as int),
        decreases count - done,
    {
        proof {
            reveal_strlit(" ");
        }
        out.append(" ");
        done = done + 1;
        assert(out@ =~= old(out)@ + spaces(done as int));
    }
    assert(out@ =~= old(out)@ + spaces(count as int));
}

/// Appends `s`, moved to the right end of a field of `width` characters.
pub fn push_right(out: &mut String, s: &str, width: usize)
    ensures
        final(out)@ == old(out)@ + align_right(s@, width as int),
{
    let len: usize = s.unicode_len();
    if len < width {
        push_spaces(out, width - len);
    }
    out.append(s);
    assert(out@ =~= old(out)@ + align_right(s@, width as int));
}

/// Appends `s`, followed by the spaces that fill a field of `width`
/// characters.
pub fn push_left(out: &mut String, s: &str, width: usize)
    ensures
        final(out)@ == old(out)@ + align_left(s@, width as int),
{
    let len: usize = s.unicode_len();
    out.append(s);
    if len < width {
        push_spaces(out, width - len);
    }
    assert(out@ =~= old(out)@ + align_left(s@, width as int));
}

/// Appends `s` in the middle of a field of `width` characters.
pub fn push_centered(out: &mut String, s: &str, width: usize)
    ensures
        final(out)@ == old(out)@ + centered(s@, width as int),
{
    let len: usize = s.unicode_len();
    if len < width {
        let padding: usize = width - len;
        let before: usize = padding / 2;
        push_spaces(out, before);
        out.append(s);
        push_spaces(out, padding - before);
    } else {
        out.append(s);
    }
    assert(out@ =~= old(out)@ + centered(s@, width as int));
}

/// Why a text does not write a number of sixteen bits.
#[derive(Debug, Clone, Copy, PartialEq, Eq, Structural)]
pub enum NumberError {
    /// The text is empty.
    Empty,
    /// A character is no decimal digit, or the text is a sign and nothing
    /// else.
    InvalidDigit,
    /// The number is greater than 65535.
    TooLarge,
}

impl NumberError {
    /// The words for the error.
    pub open spec fn message_text(self) -> Seq<char> {
        match self {
            NumberError::Empty => "cannot parse integer from empty string"@,
            NumberError::InvalidDigit => "invalid digit found in string"@,
            NumberError::TooLarge => "number too large to fit in target type"@,
        }
    }

    /// The words for the error.
    pub fn message(&self) -> (text: &'static str)
        ensures
            text@ == self.message_text(),
    {
        match self {
            NumberError::Empty => "cannot parse integer from empty string",
            NumberError::InvalidDigit => "invalid digit found in string",
            NumberError::TooLarge => "number too large to fit in target type",
        }
    }
}

/// The value of the decimal digit `c`, or nothing where `c` is no digit.
pub open spec fn digit_value(c: char) -> Option<int> {
    if '0' as int <= c as int <= '9' as int {
        Some(c as int - '0' as int)
    } else {
        None
    }
}

/// The number that the decimal digits `s` write, read from the left. The
/// reading stops with an error at the first character that is no digit, or
/// that takes the number beyond sixteen bits.
pub open spec fn digits_value(s: Seq<char>) -> Result<nat, NumberError>
    decreases s.len(),
{
    if s.len() == 0 {
        Ok(0)
    } else {
        match digits_value(s.drop_last()) {
            Err(e) => Err(e),
            Ok(before) => match digit_value(s.last()) {
                None => Err(NumberError::InvalidDigit),
                Some(d) => if 10 * before + d > u16::MAX {
                    Err(NumberError::TooLarge)
                } else {
                    Ok((10 * before + d) as nat)
                },
            },
        }
    }
}

/// The number that `s` writes: decimal digits, after a plus sign or none.
pub open spec fn parsed_u16(s: Seq<char>) -> Result<u16, NumberError> {
    if s.len() == 0 {
        Err(NumberError::Empty)
    } else if s.len() == 1 && (s[0] == '+' || s[0] == '-') {
        Err(NumberError::InvalidDigit)
    } else {
        let digits = if s[0] == '+' {
            s.subrange(1, s.len() as int)
        } else {
            s
        };
        match digits_value(digits) {
            Ok(value) => Ok(value as u16),
            Err(e) => Err(e),
        }
    }
}

/// Where the reading of the first `n` characters of `s` has stopped with an
/// error, the reading of `s` stops with that error.
pub proof fn lemma_digits_error_stays(s: Seq<char>, n: int)
    requires
        0 <= n <= s.len(),
        digits_value(s.take(n)) is Err,
    ensures
        digits_value(s) == digits_value(s.take(n)),
    decreases s.len() - n,
{
    if n == s.len() {
        assert(s.take(n) =~= s);
    } else {
        assert(s.take(n + 1).drop_last() =~= s.take(n));
        lemma_digits_error_stays(s, n + 1);
    }
}

/// What is written with [`decimal`] is read back as the same number.
pub proof fn lemma_decimal_read_back(n: nat)
    requires
        n <= u16::MAX,
    ensures
        digits_value(decimal(n)) == Ok::<nat, NumberError>(n),
        parsed_u16(decimal(n)) == Ok::<u16, NumberError>(n as u16),
    decreases n,
{
    let text = decimal(n);
    let before = text.drop_last();
    if n >= 10 {
        lemma_decimal_read_back(n / 10);
        assert(before =~= decimal(n / 10));
    } else {
        assert(before =~= Seq::<char>::empty());
        assert(digits_value(before) == Ok::<nat, NumberError>(0));
    }
    assert(digits_value(before) == Ok::<nat, NumberError>(n / 10));
    assert(text.last() == digit((n % 10) as int));
    assert(digit_value(text.last()) == Some((n % 10) as int));
    assert(digits_value(text) == Ok::<nat, NumberError>(n));
    lemma_decimal_first(n);
}

/// A decimal number starts with a digit.
proof fn lemma_decimal_first(n: nat)
    ensures
        digit_value(decimal(n)[0]) is Some,
    decreases n,
{
    if n >= 10 {
        lemma_decimal_first(n / 10);
        lemma_decimal_len(n / 10);
    }
}

/// Reads a number of sixteen bits: decimal digits, after a plus sign or
/// none.
pub fn parse_u16(text: &str) -> (number: Result<u16, NumberError>)
    ensures
        number == parsed_u16(text@),
{
    let len: usize = text.unicode_len();
    if len == 0 {
        return Err(NumberError::Empty);
    }
    let first: char = text.get_char(0);
    if len == 1 && (first == '+' || first == '-') {
        return Err(NumberError::InvalidDigit);
    }
    let start: usize = if first == '+' {
        1
    } else {
        0
    };
    let ghost digits = text@.subrange(start as int, len as int);
    assert(start == 0 ==> digits =~= text@);
    assert(parsed_u16(text@) == match digits_value(digits) {
        Ok(value) => Ok::<u16, NumberError>(value as u16),
        Err(e) => Err(e),
    });
    let mut value: u32 = 0;
    let mut i: usize = start;
    assert(digits.take(0) =~= Seq::<char>::empty());
    while i < len
        invariant
            start <= i <= len,
            len == text@.len(),
            digits == text@.subrange(start as int, len as int),
            parsed_u16(text@) == match digits_value(digits) {
                Ok(value) => Ok::<u16, NumberError>(value as u16),
                Err(e) => Err(e),
            },
            value <= u16::MAX,
            digits_value(digits.take(i - start)) == Ok::<nat, NumberError>(value as nat),
        decreases len - i,
    {
        let c: char = text.get_char(i);
        proof {
            let read = digits.take(i - start + 1);
            assert(read.drop_last() =~= digits.take(i - start));
            assert(read.last() == c);
        }
        if !('0' <= c && c <= '9') {
            proof {
                lemma_digits_error_stays(digits, i - start + 1);
            }
            return Err(NumberError::InvalidDigit);
        }
        let d: u32 = c as u32 - '0' as u32;
        if 10 * value + d > 65535 {
            proof {
                lemma_digits_error_stays(digits, i - start + 1);
            }
            return Err(NumberError::TooLarge);
        }
        value = 10 * value + d;
        i = i + 1;
    }
    assert(digits.take(len - start) =~= digits);
    Ok(value as u16)
}

} // verus!
