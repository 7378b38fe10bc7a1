//! A typed 64-bit address: parsing, checked arithmetic and formatting.

use crate::text::{hex_digits, push_hex};
use vstd::prelude::*;
use vstd::string::*;

verus! {

/// A 64-bit address. The value zero is called nil.
#[derive(Clone, Copy, PartialEq, Eq, Structural, Debug, Hash, PartialOrd, Ord)]
pub struct Addr(pub u64);

impl View for Addr {
    type V = int;

    open spec fn view(&self) -> int {
        self.0 as int
    }
}

/// Why a text is not an address.
#[derive(Clone, Copy, PartialEq, Eq, Structural, Debug)]
pub enum ParseError {
    /// There is nothing to parse.
    Empty,
    /// A character is not a digit of the radix.
    InvalidDigit,
    /// The number does not fit in 64 bits.
    Overflow,
}

/// The value of the ASCII character `b` as a digit of `radix`, letters of
/// either case counting from ten.
pub open spec fn digit_value(b: u8, radix: int) -> Option<int> {
    let v: int = if 0x30 <= b <= 0x39 {
        b - 0x30
    } else if 0x61 <= b <= 0x7a {
        b - 0x61 + 10
    } else if 0x41 <= b <= 0x5a {
        b - 0x41 + 10
    } else {
        radix
    };
    if v < radix {
        Some(v)
    } else {
        None
    }
}

/// The number that `digits` spell in `radix`, read from the left: the first
/// character that is no digit, or at which the number leaves 64 bits, ends
/// the reading with its error.
pub open spec fn parse_digits(digits: Seq<u8>, radix: int) -> Result<int, ParseError>
    decreases digits.len(),
{
    if digits.len() == 0 {
        Ok(0)
    } else {
        match parse_digits(digits.drop_last(), radix) {
            Err(e) => Err(e),
            Ok(acc) => match digit_value(digits.last(), radix) {
                None => Err(ParseError::InvalidDigit),
                Some(d) => if acc * radix + d > u64::MAX {
                    Err(ParseError::Overflow)
                } else {
                    Ok(acc * radix + d)
                },
            },
        }
    }
}

/// An unsigned number in `radix`: digits, after one optional `+` that does
/// not stand alone.
pub open spec fn parse_radix(text: Seq<u8>, radix: int) -> Result<int, ParseError> {
    if text.len() == 0 {
        Err(ParseError::Empty)
    } else if text.len() == 1 && text[0] == 0x2b {
        Err(ParseError::InvalidDigit)
    } else if text[0] == 0x2b {
        parse_digits(text.skip(1), radix)
    } else {
        parse_digits(text, radix)
    }
}

/// `text` without its leading `0x`, as often as it leads.
pub open spec fn strip_hex_prefix(text: Seq<u8>) -> Seq<u8>
    decreases text.len(),
{
    if text.len() >= 2 && text[0] == 0x30 && text[1] == 0x78 {
        strip_hex_prefix(text.skip(2))
    } else {
        text
    }
}

/// An address in text: a decimal number, or else a hexadecimal number
/// after the leading `0x` is taken off. The error is that of the
/// hexadecimal reading.
pub open spec fn parse_addr(text: Seq<u8>) -> Result<int, ParseError> {
    match parse_radix(text, 10) {
        Ok(v) => Ok(v),
        Err(_) => parse_radix(strip_hex_prefix(text), 16),
    }
}

/// What `parse_addr` gives, as an address.
pub open spec fn parsed(text: Seq<u8>) -> Result<Addr, ParseError> {
    match parse_addr(text) {
        Ok(v) => Ok(Addr(v as u64)),
        Err(e) => Err(e),
    }
}

/// The text of an address: `0x` and sixteen lower-case hexadecimal digits.
pub open spec fn hex_text(a: int) -> Seq<char> {
    seq!['0', 'x'] + hex_digits(a as nat, 16)
}

proof fn lemma_parse_digits_bound(digits: Seq<u8>, radix: int)
    requires
        2 <= radix <= 36,
    ensures
        parse_digits(digits, radix) matches Ok(v) ==> 0 <= v <= u64::MAX,
    decreases digits.len(),
{
    if digits.len() > 0 {
        lemma_parse_digits_bound(digits.drop_last(), radix);
        if let Ok(acc) = parse_digits(digits.drop_last(), radix) {
            assert(acc * radix >= 0) by (nonlinear_arith)
                requires
                    acc >= 0,
                    radix >= 2,
            ;
        }
    }
}

/// Every address that parses fits in 64 bits.
pub proof fn lemma_parse_addr_bound(text: Seq<u8>)
    ensures
        parse_addr(text) matches Ok(v) ==> 0 <= v <= u64::MAX,
{
    lemma_parse_digits_bound(text, 10);
    lemma_parse_digits_bound(text.skip(1), 10);
    let rest = strip_hex_prefix(text);
    lemma_parse_digits_bound(rest, 16);
    lemma_parse_digits_bound(rest.skip(1), 16);
}

fn digit_of(b: u8, radix: u64) -> (r: Option<u64>)
    requires
        2 <= radix <= 36,
    ensures
        match r {
            Some(d) => digit_value(b, radix as int) == Some(d as int),
            None => digit_value(b, radix as int) is None,
        },
{
    let v: u64 = if 0x30 <= b && b <= 0x39 {
        (b - 0x30) as u64
    } else if 0x61 <= b && b <= 0x7a {
        (b - 0x61) as u64 + 10
    } else if 0x41 <= b && b <= 0x5a {
        (b - 0x41) as u64 + 10
    } else {
        radix
    };
    if v < radix {
        Some(v)
    } else {
        None
    }
}

fn read_digits(text: &[u8], start: usize, radix: u64) -> (r: Result<u64, ParseError>)
    requires
        start <= text@.len(),
        2 <= radix <= 36,
    ensures
        match r {
            Ok(v) => parse_digits(text@.skip(start as int), radix as int) == Ok::<int, ParseError>(
                v as int,
            ),
            Err(e) => parse_digits(text@.skip(start as int), radix as int) == Err::<
                int,
                ParseError,
            >(e),
        },
{
    let ghost all = text@.skip(start as int);
    let mut acc: u64 = 0;
    let mut i: usize = start;
    while i < text.len()
        invariant
            start <= i <= text@.len(),
            2 <= radix <= 36,
            all == text@.skip(start as int),
            parse_digits(all.take(i - start), radix as int) == Ok::<int, ParseError>(acc as int),
        decreases text@.len() - i,
    {
        let ghost next = all.take(i - start + 1);
        proof {
            assert(next.drop_last() =~= all.take(i - start));
            assert(next.last() == text@[i as int]);
            lemma_parse_digits_prefix_err(all, i - start + 1, radix as int);
        }
        let d = match digit_of(text[i], radix) {
            Some(d) => d,
            None => {
                return Err(ParseError::InvalidDigit);
            },
        };
        let scaled = match acc.checked_mul(radix) {
            Some(s) => s,
            None => {
                assert(acc * radix + d > u64::MAX);
                return Err(ParseError::Overflow);
            },
        };
        acc = match scaled.checked_add(d) {
            Some(s) => s,
            None => {
                return Err(ParseError::Overflow);
            },
        };
        i = i + 1;
    }
    assert(all.take(i - start) =~= all);
    Ok(acc)
}

/// Once a prefix fails to parse, the whole fails with the same error.
proof fn lemma_parse_digits_prefix_err(digits: Seq<u8>, n: int, radix: int)
    requires
        0 <= n <= digits.len(),
    ensures
        parse_digits(digits.take(n), radix) matches Err(e) ==> parse_digits(digits, radix) == Err::<
            int,
            ParseError,
        >(e),
    decreases digits.len() - n,
{
    if n < digits.len() {
        lemma_parse_digits_prefix_err(digits, n + 1, radix);
        assert(digits.take(n + 1).drop_last() =~= digits.take(n));
    } else {
        assert(digits.take(n) =~= digits);
    }
}

fn read_radix(text: &[u8], start: usize, radix: u64) -> (r: Result<u64, ParseError>)
    requires
        start <= text@.len(),
        2 <= radix <= 36,
    ensures
        match r {
            Ok(v) => parse_radix(text@.skip(start as int), radix as int) == Ok::<int, ParseError>(
                v as int,
            ),
            Err(e) => parse_radix(text@.skip(start as int), radix as int) == Err::<
                int,
                ParseError,
            >(e),
        },
{
    let ghost all = text@.skip(start as int);
    if start == text.len() {
        Err(ParseError::Empty)
    } else if text[start] == 0x2b {
        if text.len() - start == 1 {
            Err(ParseError::InvalidDigit)
        } else {
            assert(all.skip(1) =~= text@.skip(start + 1));
            read_digits(text, start + 1, radix)
        }
    } else {
        read_digits(text, start, radix)
    }
}

fn hex_start(text: &[u8]) -> (r: usize)
    ensures
        r <= text@.len(),
        text@.skip(r as int) == strip_hex_prefix(text@),
{
    let mut i: usize = 0;
    assert(text@.skip(0) =~= text@);
    while text.len() - i >= 2 && text[i] == 0x30 && text[i + 1] == 0x78
        invariant
            i <= text@.len(),
            strip_hex_prefix(text@.skip(i as int)) == strip_hex_prefix(text@),
        decreases text@.len() - i,
    {
        assert(text@.skip(i as int).skip(2) =~= text@.skip(i + 2));
        i = i + 2;
    }
    i
}

impl Addr {
    /// The nil address.
    pub fn nil() -> (r: Addr)
        ensures
            r@ == 0,
    {
        Addr(0)
    }

    /// Whether this is the nil address.
    pub fn is_nil(&self) -> (r: bool)
        ensures
            r == (self@ == 0),
    {
        self.0 == 0
    }

    /// The address as a number.
    pub fn value(&self) -> (r: u64)
        ensures
            r == self@,
    {
        self.0
    }

    /// Reads an address from the bytes of a text.
    pub fn parse_bytes(text: &[u8]) -> (r: Result<Addr, ParseError>)
        ensures
            r == parsed(text@),
    {
        proof {
            lemma_parse_addr_bound(text@);
            assert(text@.skip(0) =~= text@);
        }
        match read_radix(text, 0, 10) {
            Ok(v) => Ok(Addr(v)),
            Err(_) => {
                let start = hex_start(text);
                match read_radix(text, start, 16) {
                    Ok(v) => Ok(Addr(v)),
                    Err(e) => Err(e),
                }
            },
        }
    }

    /// Reads an address from a text: decimal, or hexadecimal with or without
    /// a leading `0x`.
    pub fn parse(text: &str) -> (r: Result<Addr, ParseError>)
        ensures
            r == parsed(text.spec_bytes()),
    {
        Addr::parse_bytes(text.as_bytes())
    }

    /// The sum of two addresses, unless it leaves 64 bits.
    pub fn checked_add(self, rhs: Addr) -> (r: Option<Addr>)
        ensures
            self@ + rhs@ <= u64::MAX ==> r == Some(Addr((self@ + rhs@) as u64)),
            self@ + rhs@ > u64::MAX ==> r is None,
    {
        match self.0.checked_add(rhs.0) {
            Some(v) => Some(Addr(v)),
            None => None,
        }
    }

    /// The address moved by a signed offset, unless it leaves 64 bits.
    pub fn checked_add_signed(self, rhs: i64) -> (r: Option<Addr>)
        ensures
            0 <= self@ + rhs <= u64::MAX ==> r == Some(Addr((self@ + rhs) as u64)),
            !(0 <= self@ + rhs <= u64::MAX) ==> r is None,
    {
        if rhs >= 0 {
            let up: u64 = rhs as u64;
            if self.0 <= u64::MAX - up {
                Some(Addr(self.0 + up))
            } else {
                None
            }
        } else {
            let down: u64 = if rhs == i64::MIN {
                0x8000_0000_0000_0000u64
            } else {
                (-rhs) as u64
            };
            if self.0 >= down {
                Some(Addr(self.0 - down))
            } else {
                None
            }
        }
    }

    /// The distance from `rhs` up to this address, unless `rhs` lies above it.
    pub fn checked_sub(self, rhs: Addr) -> (r: Option<Addr>)
        ensures
            rhs@ <= self@ ==> r == Some(Addr((self@ - rhs@) as u64)),
            rhs@ > self@ ==> r is None,
    {
        if self.0 >= rhs.0 {
            Some(Addr(self.0 - rhs.0))
        } else {
            None
        }
    }

    /// The address as text: `0x` and sixteen lower-case hexadecimal digits.
    pub fn to_string(&self) -> (r: String)
        ensures
            r@ == hex_text(self@),
    {
        proof {
            reveal_strlit("0x");
        }
        let mut out = String::new();
        out.append("0x");
        assert(out@ =~= seq!['0', 'x']);
        push_hex(&mut out, self.0, 16);
        out
    }
}

impl Default for Addr {
    fn default() -> (r: Addr)
        ensures
            r@ == 0,
    {
        Addr(0)
    }
}

impl From<u64> for Addr {
    fn from(value: u64) -> (r: Addr) {
        Addr(value)
    }
}

impl vstd::std_specs::convert::FromSpecImpl<u64> for Addr {
    open spec fn obeys_from_spec() -> bool {
        true
    }

    open spec fn from_spec(value: u64) -> Addr {
        Addr(value)
    }
}

/// The text of an address has eighteen characters.
pub proof fn lemma_hex_text_len(a: int)
    ensures
        hex_text(a).len() == 18,
{
    lemma_hex_digits_len(a as nat, 16);
}

/// `hex_digits` gives as many characters as it is asked for.
pub proof fn lemma_hex_digits_len(v: nat, count: nat)
    ensures
        hex_digits(v, count).len() == count,
    decreases count,
{
    if count > 0 {
        lemma_hex_digits_len(v / 16, (count - 1) as nat);
    }
}

} // verus!
