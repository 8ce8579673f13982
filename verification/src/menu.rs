use vstd::prelude::*;
use vstd::utf8::encode_utf8;

verus! {

/// Whether a character has the Unicode `White_Space` property: tab, line
/// feed, vertical tab, form feed, carriage return, space, next line,
/// no-break space, ogham space mark, the spaces U+2000 to U+200A, line
/// separator, paragraph separator, narrow no-break space, medium
/// mathematical space and ideographic space.
pub open spec fn is_white_space(c: char) -> bool {
    let u = c as u32;
    ||| 0x09 <= u <= 0x0d
    ||| u == 0x20
    ||| u == 0x85
    ||| u == 0xa0
    ||| u == 0x1680
    ||| 0x2000 <= u <= 0x200a
    ||| u == 0x2028
    ||| u == 0x2029
    ||| u == 0x202f
    ||| u == 0x205f
    ||| u == 0x3000
}

/// `s` without its leading white space.
pub open spec fn trim_start(s: Seq<char>) -> Seq<char>
    decreases s.len(),
{
    if s.len() > 0 && is_white_space(s[0]) {
        trim_start(s.drop_first())
    } else {
        s
    }
}

/// `s` without its trailing white space.
pub open spec fn trim_end(s: Seq<char>) -> Seq<char>
    decreases s.len(),
{
    if s.len() > 0 && is_white_space(s.last()) {
        trim_end(s.drop_last())
    } else {
        s
    }
}

/// `s` without its leading and trailing white space.
pub open spec fn spec_trim(s: Seq<char>) -> Seq<char> {
    trim_end(trim_start(s))
}

/// `str::trim`: the string slice with leading and trailing characters that
/// have the Unicode `White_Space` property removed.
#[verifier::external_body]
fn trim(s: &str) -> (t: &str)
    ensures
        t@ == spec_trim(s@),
{
    s.trim()
}

pub open spec fn is_ascii_digit(b: u8) -> bool {
    0x30 <= b <= 0x39
}

/// Whether `s` is a nonempty run of ASCII decimal digits.
pub open spec fn all_digits(s: Seq<u8>) -> bool {
    &&& s.len() > 0
    &&& forall|i: int| 0 <= i < s.len() ==> is_ascii_digit(#[trigger] s[i])
}

/// The number that a run of decimal digits spells.
pub open spec fn digits_value(s: Seq<u8>) -> nat
    decreases s.len(),
{
    if s.len() == 0 {
        0
    } else {
        10 * digits_value(s.drop_last()) + (s.last() - 0x30) as nat
    }
}

/// The digits of an unsigned decimal: one leading `+` is allowed before them.
pub open spec fn unsigned_digits(s: Seq<u8>) -> Seq<u8> {
    if s.len() > 1 && s[0] == 0x2b {
        s.drop_first()
    } else {
        s
    }
}

/// What parsing `s` as a `usize` gives: an optional `+` and one or more ASCII
/// digits, of a value that fits.
pub open spec fn spec_parse_usize(s: Seq<u8>) -> Option<usize> {
    let d = unsigned_digits(s);
    if all_digits(d) && digits_value(d) <= usize::MAX {
        Some(digits_value(d) as usize)
    } else {
        None
    }
}

proof fn lemma_digits_value_grows(s: Seq<u8>, k: int)
    requires
        0 <= k <= s.len(),
        forall|i: int| 0 <= i < s.len() ==> is_ascii_digit(#[trigger] s[i]),
    ensures
        digits_value(s.take(k)) <= digits_value(s),
    decreases s.len() - k,
{
    if k < s.len() {
        lemma_digits_value_grows(s, k + 1);
        assert(s.take(k + 1).drop_last() =~= s.take(k));
    } else {
        assert(s.take(k) =~= s);
    }
}

/// Parses an unsigned decimal number as `usize` parsing does.
pub fn parse_usize(text: &str) -> (n: Option<usize>)
    ensures
        n == spec_parse_usize(encode_utf8(text@)),
{
    let bytes: &[u8] = text.as_bytes();
    let len: usize = bytes.len();
    let start: usize = if len > 1 && bytes[0] == 0x2b { 1 } else { 0 };
    let ghost d = unsigned_digits(bytes@);
    assert(d =~= bytes@.subrange(start as int, len as int));
    if start == len {
        return None;
    }
    let mut value: usize = 0;
    let mut i: usize = start;
    while i < len
        invariant
            bytes@ == encode_utf8(text@),
            len == bytes@.len(),
            start <= i <= len,
            start < len,
            d == bytes@.subrange(start as int, len as int),
            d == unsigned_digits(encode_utf8(text@)),
            forall|j: int| 0 <= j < i - start ==> is_ascii_digit(#[trigger] d[j]),
            value == digits_value(d.take(i - start)),
        decreases len - i,
    {
        let b: u8 = bytes[i];
        assert(d[i - start] == b);
        if b < 0x30 || b > 0x39 {
            return None;
        }
        let digit: usize = (b - 0x30) as usize;
        proof {
            assert(d.take(i - start + 1).drop_last() =~= d.take(i - start));
            assert(d.take(i - start + 1).last() == b);
            assert(digits_value(d.take(i - start + 1)) == 10 * value + digit);
        }
        if value > (usize::MAX - digit) / 10 {
            proof {
                assert(10 * value + digit > usize::MAX) by (nonlinear_arith)
                    requires
                        value > (usize::MAX - digit) / 10,
                        digit <= 9,
                ;
                if all_digits(d) {
                    lemma_digits_value_grows(d, i - start + 1);
                }
            }
            return None;
        }
        proof {
            assert(10 * value + digit <= usize::MAX) by (nonlinear_arith)
                requires
                    value <= (usize::MAX - digit) / 10,
                    digit <= 9,
            ;
        }
        value = 10 * value + digit;
        i = i + 1;
    }
    proof {
        assert(d.take(len - start) =~= d);
    }
    Some(value)
}

/// How many decimal digits `n` is written with.
pub open spec fn decimal_width(n: nat) -> nat
    decreases n,
{
    if n < 10 {
        1
    } else {
        1 + decimal_width(n / 10)
    }
}

proof fn lemma_decimal_width_monotone(a: nat, b: nat)
    requires
        a <= b,
    ensures
        decimal_width(a) <= decimal_width(b),
    decreases b,
{
    if b >= 10 && a >= 10 {
        lemma_decimal_width_monotone(a / 10, b / 10);
    }
}

proof fn lemma_decimal_width_bounds(x: nat)
    ensures
        decimal_width(x) >= 1,
        x >= 1 ==> decimal_width(x) <= x,
        x >= 10 ==> decimal_width(x) >= 2,
    decreases x,
{
    if x >= 10 {
        lemma_decimal_width_bounds(x / 10);
    }
}

/// How many decimal digits `n` is written with.
pub fn decimal_width_of(n: usize) -> (w: usize)
    ensures
        w == decimal_width(n as nat),
{
    let mut w: usize = 1;
    let mut rest: usize = n;
    while rest >= 10
        invariant
            1 <= w,
            w + decimal_width(rest as nat) == 1 + decimal_width(n as nat),
        decreases rest,
    {
        proof {
            lemma_decimal_width_bounds(rest as nat);
            lemma_decimal_width_bounds(n as nat);
        }
        rest = rest / 10;
        w = w + 1;
    }
    w
}

/// The spaces that right-align the number `n` of a menu entry under the
/// widest number `len`.
pub fn menu_padding(len: usize, n: usize) -> (pad: usize)
    requires
        1 <= n <= len,
    ensures
        pad + decimal_width(n as nat) == decimal_width(len as nat),
{
    proof {
        lemma_decimal_width_monotone(n as nat, len as nat);
    }
    decimal_width_of(len) - decimal_width_of(n)
}

/// Why no option was chosen.
#[derive(Clone, Copy, Debug, PartialEq, Eq, Structural)]
pub enum ChoiceError {
    /// There is nothing to choose from.
    NoOptions,
    /// The answer was empty and there is no default.
    NoDefault,
    /// The answer is not an unsigned number.
    NotANumber,
    /// The answer numbers no option (`1..=len`).
    OutOfRange(usize),
}

/// The option chosen from a menu.
#[derive(Clone, Copy, Debug, PartialEq, Eq, Structural)]
pub enum Choice {
    /// The option at this index (counting from zero).
    Picked(usize),
    /// The default option.
    Default,
}

/// The outcome that needs no answer: with no options there is nothing to
/// choose, a single option is chosen at once. `None` when the user must be
/// asked.
pub fn preselect(len: usize) -> (r: Option<Result<usize, ChoiceError>>)
    ensures
        len == 0 ==> r == Some(Err::<usize, ChoiceError>(ChoiceError::NoOptions)),
        len == 1 ==> r == Some(Ok::<usize, ChoiceError>(0)),
        len >= 2 ==> r is None,
{
    if len == 0 {
        Some(Err(ChoiceError::NoOptions))
    } else if len == 1 {
        Some(Ok(0))
    } else {
        None
    }
}

/// What an answer (already trimmed) chooses among `len` options: an empty
/// answer takes the default, if there is one; otherwise it must number an
/// option, counting from one.
pub open spec fn spec_resolve(len: usize, has_default: bool, answer: Seq<char>) -> Result<Choice, ChoiceError> {
    if answer.len() == 0 {
        if has_default {
            Ok(Choice::Default)
        } else {
            Err(ChoiceError::NoDefault)
        }
    } else {
        match spec_parse_usize(encode_utf8(answer)) {
            None => Err(ChoiceError::NotANumber),
            Some(index) => if index < 1 || index > len {
                Err(ChoiceError::OutOfRange(index))
            } else {
                Ok(Choice::Picked((index - 1) as usize))
            },
        }
    }
}

/// An answer never picks an option that is not there.
pub proof fn lemma_resolve_in_range(len: usize, has_default: bool, answer: Seq<char>)
    ensures
        spec_resolve(len, has_default, answer) matches Ok(Choice::Picked(i)) ==> i < len,
        spec_resolve(len, has_default, answer) matches Ok(Choice::Default) ==> has_default,
{
}

/// The decimal digits of `n`, most significant first, without leading zeros.
pub open spec fn decimal(n: nat) -> Seq<u8>
    decreases n,
{
    if n < 10 {
        seq![(0x30 + n) as u8]
    } else {
        decimal(n / 10).push((0x30 + n % 10) as u8)
    }
}

proof fn lemma_decimal_digits(n: nat)
    ensures
        decimal(n).len() > 0,
        forall|i: int| 0 <= i < decimal(n).len() ==> is_ascii_digit(#[trigger] decimal(n)[i]),
        digits_value(decimal(n)) == n,
    decreases n,
{
    if n >= 10 {
        lemma_decimal_digits(n / 10);
        let d = decimal(n / 10);
        assert(decimal(n).drop_last() =~= d);
        assert(decimal(n).last() == (0x30 + n % 10) as u8);
        assert(((0x30 + n % 10) as u8) - 0x30 == n % 10);
        assert(n == 10 * (n / 10) + n % 10);
        assert(digits_value(decimal(n)) == 10 * digits_value(d) + (decimal(n).last() - 0x30) as nat);
        assert forall|i: int| 0 <= i < decimal(n).len() implies is_ascii_digit(#[trigger] decimal(n)[i]) by {
            if i < d.len() {
                assert(decimal(n)[i] == d[i]);
            }
        }
    } else {
        assert(decimal(n).drop_last() =~= Seq::<u8>::empty());
        assert(digits_value(Seq::<u8>::empty()) == 0);
    }
}

/// Writing a number in decimal and parsing it gives the number back.
pub proof fn lemma_parse_decimal(n: usize)
    ensures
        spec_parse_usize(decimal(n as nat)) == Some(n),
{
    lemma_decimal_digits(n as nat);
    assert(decimal(n as nat)[0] != 0x2b);
    assert(unsigned_digits(decimal(n as nat)) == decimal(n as nat));
}

/// Every option can be chosen by typing its number: an answer that reads as
/// a number from 1 to `len` picks the option of that number, one that reads
/// as another number is refused as out of range, whatever the default.
pub proof fn lemma_typed_number_picks(len: usize, has_default: bool, answer: Seq<char>, n: usize)
    requires
        encode_utf8(answer) == decimal(n as nat),
    ensures
        1 <= n <= len ==> spec_resolve(len, has_default, answer) == Ok::<Choice, ChoiceError>(
            Choice::Picked((n - 1) as usize),
        ),
        n < 1 || n > len ==> spec_resolve(len, has_default, answer) == Err::<Choice, ChoiceError>(
            ChoiceError::OutOfRange(n),
        ),
{
    lemma_parse_decimal(n);
    lemma_decimal_digits(n as nat);
    if answer.len() == 0 {
        assert(encode_utf8(answer) =~= Seq::<u8>::empty());
    }
}

/// Resolves a trimmed answer to the menu.
pub fn resolve_trimmed(len: usize, has_default: bool, answer: &str) -> (r: Result<Choice, ChoiceError>)
    ensures
        r == spec_resolve(len, has_default, answer@),
        answer@.len() == 0 && has_default ==> r == Ok::<Choice, ChoiceError>(Choice::Default),
        answer@.len() == 0 && !has_default ==> r == Err::<Choice, ChoiceError>(ChoiceError::NoDefault),
        answer@.len() > 0 && spec_parse_usize(encode_utf8(answer@)) is None ==> r == Err::<
            Choice,
            ChoiceError,
        >(ChoiceError::NotANumber),
        forall|n: usize|
            answer@.len() > 0 && spec_parse_usize(encode_utf8(answer@)) == Some(n) && 1 <= n <= len
                ==> r == Ok::<Choice, ChoiceError>(Choice::Picked((n - 1) as usize)),
        forall|n: usize|
            answer@.len() > 0 && spec_parse_usize(encode_utf8(answer@)) == Some(n) && (n < 1 || n > len)
                ==> r == Err::<Choice, ChoiceError>(ChoiceError::OutOfRange(n)),
        r matches Ok(Choice::Picked(i)) ==> i < len,
{
    if answer.is_empty() {
        return if has_default {
            Ok(Choice::Default)
        } else {
            Err(ChoiceError::NoDefault)
        };
    }
    match parse_usize(answer) {
        None => Err(ChoiceError::NotANumber),
        Some(index) => if index < 1 || index > len {
            Err(ChoiceError::OutOfRange(index))
        } else {
            Ok(Choice::Picked(index - 1))
        },
    }
}

/// Resolves a line typed in answer to the menu: surrounding whitespace is
/// ignored.
pub fn resolve_choice(len: usize, has_default: bool, line: &str) -> (r: Result<Choice, ChoiceError>)
    ensures
        r == spec_resolve(len, has_default, spec_trim(line@)),
        forall|n: usize|
            spec_trim(line@).len() > 0 && spec_parse_usize(encode_utf8(spec_trim(line@))) == Some(n) && 1
                <= n <= len ==> r == Ok::<Choice, ChoiceError>(Choice::Picked((n - 1) as usize)),
        forall|n: usize|
            spec_trim(line@).len() > 0 && spec_parse_usize(encode_utf8(spec_trim(line@))) == Some(n) && (n
                < 1 || n > len) ==> r == Err::<Choice, ChoiceError>(ChoiceError::OutOfRange(n)),
        r matches Ok(Choice::Picked(i)) ==> i < len,
{
    let answer = trim(line);
    resolve_trimmed(len, has_default, answer)
}

} // verus!
