//! Text helpers: lossy UTF-8 decoding and trimming from the standard
//! library, and the hexadecimal and decimal notations the gateway prints
//! and reads.

use vstd::prelude::*;

verus! {

/// The text that `String::from_utf8_lossy` makes of `data`: the decoded
/// characters, with U+FFFD in place of every ill-formed sequence.
pub uninterp spec fn spec_utf8_lossy(data: Seq<u8>) -> Seq<char>;

/// What `str::trim` leaves of `text`: the text without its leading and
/// trailing white space.
pub uninterp spec fn spec_trim(text: Seq<char>) -> Seq<char>;

/// `String::from_utf8_lossy`, as an owned string. Its result is a function
/// of the bytes alone and is named by [`spec_utf8_lossy`].
#[verifier::external_body]
pub(crate) fn utf8_lossy(data: &[u8]) -> (r: String)
    ensures
        r@ == spec_utf8_lossy(data@),
{
    String::from_utf8_lossy(data).into_owned()
}

/// `str::trim`. Its result is a function of the text alone and is named by
/// [`spec_trim`].
#[verifier::external_body]
pub(crate) fn trim(text: &str) -> (r: &str)
    ensures
        r@ == spec_trim(text@),
{
    text.trim()
}

/// The lower-case hexadecimal digit for `n`.
pub open spec fn spec_hex_digit(n: int) -> char
    recommends
        0 <= n < 16,
{
    seq!['0', '1', '2', '3', '4', '5', '6', '7', '8', '9', 'a', 'b', 'c', 'd', 'e', 'f'][n]
}

/// The hexadecimal text that `hex::encode` makes of `data`: two lower-case
/// digits for each byte, high digit first.
pub open spec fn spec_hex_encode(data: Seq<u8>) -> Seq<char> {
    Seq::new(
        2 * data.len(),
        |i: int|
            spec_hex_digit(
                if i % 2 == 0 {
                    data[i / 2] as int / 16
                } else {
                    data[i / 2] as int % 16
                },
            ),
    )
}

/// `hex::encode`: each byte becomes two lower-case hexadecimal digits.
#[verifier::external_body]
pub(crate) fn hex_encode(data: &[u8]) -> (r: String)
    ensures
        r@ == spec_hex_encode(data@),
{
    hex::encode(data)
}

/// The one-digit text for `n`.
pub fn hex_digit_str(n: u8) -> (r: &'static str)
    requires
        n < 16,
    ensures
        r@ == seq![spec_hex_digit(n as int)],
{
    proof {
        reveal_strlit("0");
        reveal_strlit("1");
        reveal_strlit("2");
        reveal_strlit("3");
        reveal_strlit("4");
        reveal_strlit("5");
        reveal_strlit("6");
        reveal_strlit("7");
        reveal_strlit("8");
        reveal_strlit("9");
        reveal_strlit("a");
        reveal_strlit("b");
        reveal_strlit("c");
        reveal_strlit("d");
        reveal_strlit("e");
        reveal_strlit("f");
    }
    let r = match n {
        0 => "0",
        1 => "1",
        2 => "2",
        3 => "3",
        4 => "4",
        5 => "5",
        6 => "6",
        7 => "7",
        8 => "8",
        9 => "9",
        10 => "a",
        11 => "b",
        12 => "c",
        13 => "d",
        14 => "e",
        _ => "f",
    };
    assert(r@ =~= seq![spec_hex_digit(n as int)]);
    r
}

/// A byte in lower-case hexadecimal without padding: one digit below 16,
/// two digits from 16 on.
pub open spec fn spec_hex_short(b: u8) -> Seq<char> {
    if b < 16 {
        seq![spec_hex_digit(b as int)]
    } else {
        seq![spec_hex_digit(b as int / 16), spec_hex_digit(b as int % 16)]
    }
}

/// Appends `b` to `text` in lower-case hexadecimal without padding.
pub fn push_hex_short(text: &mut String, b: u8)
    ensures
        final(text)@ == old(text)@ + spec_hex_short(b),
{
    if b >= 16 {
        text.append(hex_digit_str(b / 16));
    }
    text.append(hex_digit_str(b % 16));
    assert(text@ =~= old(text)@ + spec_hex_short(b));
}

/// The decimal digits of `n` as ASCII bytes, without leading zeros.
pub open spec fn spec_decimal(n: nat) -> Seq<u8>
    decreases n,
{
    if n < 10 {
        seq![(0x30 + n) as u8]
    } else {
        spec_decimal(n / 10).push((0x30 + n % 10) as u8)
    }
}

/// Writes `n` in decimal, as ASCII bytes.
pub fn decimal_bytes(n: u64) -> (r: Vec<u8>)
    ensures
        r@ == spec_decimal(n as nat),
    decreases n,
{
    if n < 10 {
        let mut r: Vec<u8> = Vec::new();
        r.push(0x30 + n as u8);
        assert(r@ =~= spec_decimal(n as nat));
        r
    } else {
        let mut r = decimal_bytes(n / 10);
        r.push(0x30 + (n % 10) as u8);
        r
    }
}

/// The value of an ASCII hexadecimal digit, in either case.
pub open spec fn spec_hex_value(c: u8) -> Option<int> {
    if 0x30 <= c <= 0x39 {
        Some(c - 0x30)
    } else if 0x61 <= c <= 0x66 {
        Some(c - 0x61 + 10)
    } else if 0x41 <= c <= 0x46 {
        Some(c - 0x41 + 10)
    } else {
        None
    }
}

/// Whether every byte of `digits` is a hexadecimal digit.
pub open spec fn spec_all_hex(digits: Seq<u8>) -> bool {
    forall|i: int| 0 <= i < digits.len() ==> spec_hex_value(#[trigger] digits[i]) is Some
}

/// The number that hexadecimal `digits` write, most significant digit first.
pub open spec fn spec_hex_number(digits: Seq<u8>) -> int
    recommends
        spec_all_hex(digits),
    decreases digits.len(),
{
    if digits.len() == 0 {
        0
    } else {
        16 * spec_hex_number(digits.drop_last()) + spec_hex_value(digits.last()).unwrap()
    }
}

/// The digits of a number's text: the text without one leading plus sign.
pub open spec fn spec_hex_digits(text: Seq<u8>) -> Seq<u8> {
    if text.len() > 0 && text[0] == 0x2b {
        text.skip(1)
    } else {
        text
    }
}

/// The number that `text` writes in hexadecimal, if it is one and does not
/// exceed `max`. The text is an optional plus sign and then one or more
/// hexadecimal digits in either case; leading zeros are allowed.
pub open spec fn spec_parse_hex(text: Seq<u8>, max: int) -> Option<int> {
    let digits = spec_hex_digits(text);
    if digits.len() == 0 || !spec_all_hex(digits) || spec_hex_number(digits) > max {
        None
    } else {
        Some(spec_hex_number(digits))
    }
}

/// Hexadecimal digits never write a negative number.
proof fn lemma_hex_number_nonneg(digits: Seq<u8>)
    requires
        spec_all_hex(digits),
    ensures
        spec_hex_number(digits) >= 0,
    decreases digits.len(),
{
    if digits.len() > 0 {
        assert forall|k: int| 0 <= k < digits.len() - 1 implies spec_hex_value(
            #[trigger] digits.drop_last()[k],
        ) is Some by {
            assert(digits.drop_last()[k] == digits[k]);
        }
        lemma_hex_number_nonneg(digits.drop_last());
        assert(spec_hex_value(digits[digits.len() - 1]) is Some);
    }
}

/// More digits never write a smaller number.
proof fn lemma_hex_number_grows(digits: Seq<u8>, i: int, j: int)
    requires
        spec_all_hex(digits),
        0 <= i <= j <= digits.len(),
    ensures
        spec_hex_number(digits.take(i)) <= spec_hex_number(digits.take(j)),
    decreases j - i,
{
    if i < j {
        lemma_hex_number_grows(digits, i, j - 1);
        assert(digits.take(j).drop_last() =~= digits.take(j - 1));
        assert(digits.take(j).last() == digits[j - 1]);
        assert forall|k: int| 0 <= k < j - 1 implies spec_hex_value(
            #[trigger] digits.take(j - 1)[k],
        ) is Some by {
            assert(digits.take(j - 1)[k] == digits[k]);
        }
        lemma_hex_number_nonneg(digits.take(j - 1));
        assert(spec_hex_value(digits[j - 1]) is Some);
    }
}

/// Reads a hexadecimal number of at most `max` from `text`.
pub fn parse_hex(text: &[u8], max: u64) -> (r: Option<u64>)
    ensures
        match r {
            Some(n) => spec_parse_hex(text@, max as int) == Some(n as int),
            None => spec_parse_hex(text@, max as int) is None,
        },
{
    let start: usize = if text.len() > 0 && text[0] == 0x2b {
        1
    } else {
        0
    };
    let ghost digits = spec_hex_digits(text@);
    assert(digits =~= text@.skip(start as int));
    if text.len() == start {
        return None;
    }
    let mut acc: u64 = 0;
    let mut i: usize = start;
    assert(digits.take(0) =~= Seq::<u8>::empty());
    while i < text.len()
        invariant
            start <= i <= text@.len(),
            digits == spec_hex_digits(text@),
            digits == text@.skip(start as int),
            digits.len() > 0,
            spec_all_hex(digits.take(i - start)),
            acc == spec_hex_number(digits.take(i - start)),
            acc <= max,
        decreases text@.len() - i,
    {
        let c = text[i];
        let d: u64 = if 0x30 <= c && c <= 0x39 {
            (c - 0x30) as u64
        } else if 0x61 <= c && c <= 0x66 {
            (c - 0x61 + 10) as u64
        } else if 0x41 <= c && c <= 0x46 {
            (c - 0x41 + 10) as u64
        } else {
            assert(digits[i - start] == c);
            return None;
        };
        proof {
            assert(digits[i - start] == c);
            assert(digits.take(i - start + 1).drop_last() =~= digits.take(i - start));
            assert(digits.take(i - start + 1).last() == c);
            assert forall|k: int| 0 <= k < i - start + 1 implies spec_hex_value(
                #[trigger] digits.take(i - start + 1)[k],
            ) is Some by {
                if k < i - start {
                    assert(digits.take(i - start)[k] == digits.take(i - start + 1)[k]);
                }
            }
        }
        if d > max || acc > (max - d) / 16 {
            proof {
                let upto = digits.take(i - start + 1);
                assert(spec_hex_number(upto) > max);
                if spec_all_hex(digits) {
                    lemma_hex_number_grows(digits, i - start + 1, digits.len() as int);
                    assert(digits.take(digits.len() as int) =~= digits);
                }
            }
            return None;
        }
        acc = acc * 16 + d;
        i += 1;
    }
    assert(digits.take(i - start) =~= digits);
    Some(acc)
}

} // verus!
