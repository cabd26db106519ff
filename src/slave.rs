use vstd::prelude::*;
use vstd::std_specs::convert::FromSpec;
use vstd::string::StringSliceAdditionalSpecFns;
use vstd::string::{StrSliceExecFns, StringExecFns};

verus! {

/// The raw byte that addresses a slave device.
pub type SlaveId = u8;

/// A single byte for addressing slave devices.
#[derive(Debug, Clone, Copy, PartialEq, Eq, Structural, PartialOrd, Ord, Hash)]
pub struct Slave(pub SlaveId);

/// Why a text does not denote a slave address.
#[derive(Debug, Clone, Copy, PartialEq, Eq, Structural)]
pub enum ParseError {
    /// The text is empty.
    Empty,
    /// A character is no digit of the radix.
    InvalidDigit,
    /// The value does not fit in a byte.
    PosOverflow,
}

pub open spec fn is_broadcast_id(v: u8) -> bool {
    v == 0
}

pub open spec fn is_single_device_id(v: u8) -> bool {
    1 <= v <= 247
}

pub open spec fn is_reserved_id(v: u8) -> bool {
    v > 247
}

impl Slave {
    /// The address of a broadcast message to all connected slave devices
    /// at once: a one-way request without a response.
    pub fn broadcast() -> (r: Self)
        ensures
            r.0 == 0,
    {
        Slave(0)
    }

    /// The minimum address of a single slave device.
    pub fn min_device() -> (r: Self)
        ensures
            r.0 == 1,
    {
        Slave(1)
    }

    /// The maximum address of a single slave device.
    pub fn max_device() -> (r: Self)
        ensures
            r.0 == 247,
    {
        Slave(247)
    }

    /// The reserved address of a directly connected TCP device, i.e. one that
    /// is not reached through a gateway that forwards by unit identifier.
    pub fn tcp_device() -> (r: Self)
        ensures
            r.0 == 255,
    {
        Slave(255)
    }

    pub fn is_broadcast(self) -> (r: bool)
        ensures
            r == is_broadcast_id(self.0),
    {
        self.0 == Self::broadcast().0
    }

    pub fn is_single_device(self) -> (r: bool)
        ensures
            r == is_single_device_id(self.0),
    {
        self.0 >= Self::min_device().0 && self.0 <= Self::max_device().0
    }

    pub fn is_reserved(self) -> (r: bool)
        ensures
            r == is_reserved_id(self.0),
    {
        self.0 > Self::max_device().0
    }
}

impl From<SlaveId> for Slave {
    fn from(from: SlaveId) -> (r: Self)
        ensures
            r.0 == from,
    {
        Slave(from)
    }
}

impl vstd::std_specs::convert::FromSpecImpl<SlaveId> for Slave {
    open spec fn obeys_from_spec() -> bool {
        true
    }

    open spec fn from_spec(v: SlaveId) -> Self {
        Slave(v)
    }
}

impl From<Slave> for SlaveId {
    fn from(from: Slave) -> (r: Self)
        ensures
            r == from.0,
    {
        from.0
    }
}

impl vstd::std_specs::convert::FromSpecImpl<Slave> for SlaveId {
    open spec fn obeys_from_spec() -> bool {
        true
    }

    open spec fn from_spec(v: Slave) -> Self {
        v.0
    }
}

/// Converting a byte to a slave address and back gives the byte again.
pub proof fn lemma_byte_round_trip(v: u8)
    ensures
        <SlaveId as FromSpec<Slave>>::from_spec(<Slave as FromSpec<SlaveId>>::from_spec(v)) == v,
{
}

/// The value of a digit character in any radix up to 36, or 36 where the
/// byte is no digit at all.
pub open spec fn digit_of(b: u8) -> nat {
    if 48 <= b <= 57 {
        (b - 48) as nat
    } else if 97 <= b <= 122 {
        (b - 87) as nat
    } else if 65 <= b <= 90 {
        (b - 55) as nat
    } else {
        36
    }
}

/// Reads digits from the first to the last, as a byte: the value so far, or
/// the first failure met. At each digit an invalid digit is found before a
/// value that no longer fits in a byte.
pub open spec fn scan_digits(d: Seq<u8>, radix: nat) -> Result<nat, ParseError>
    decreases d.len(),
{
    if d.len() == 0 {
        Ok(0)
    } else {
        match scan_digits(d.drop_last(), radix) {
            Err(e) => Err(e),
            Ok(v) => if digit_of(d.last()) >= radix {
                Err(ParseError::InvalidDigit)
            } else if v * radix + digit_of(d.last()) >= 256 {
                Err(ParseError::PosOverflow)
            } else {
                Ok(v * radix + digit_of(d.last()))
            },
        }
    }
}

/// The digits of an unsigned numeral: the text without one leading `+`.
pub open spec fn unsigned_digits(s: Seq<u8>) -> Seq<u8> {
    if s.len() > 0 && s[0] == 43 {
        s.drop_first()
    } else {
        s
    }
}

/// The byte that an unsigned numeral in the given radix denotes: an optional
/// `+` followed by at least one digit, with a value below 256. An empty text
/// is `Empty`; a lone `+` is an invalid digit.
pub open spec fn byte_numeral(s: Seq<u8>, radix: nat) -> Result<u8, ParseError> {
    let d = unsigned_digits(s);
    if s.len() == 0 {
        Err(ParseError::Empty)
    } else if d.len() == 0 {
        Err(ParseError::InvalidDigit)
    } else {
        match scan_digits(d, radix) {
            Ok(v) => Ok(v as u8),
            Err(e) => Err(e),
        }
    }
}

/// The address that a text denotes: a decimal numeral, or else one in
/// hexadecimal after a lowercase `0x` prefix. A text that fails both ways
/// fails as the hexadecimal reading does where it has the prefix, and as
/// the decimal reading does elsewhere.
pub open spec fn slave_id_of_text(s: Seq<u8>) -> Result<u8, ParseError> {
    match byte_numeral(s, 10) {
        Ok(v) => Ok(v),
        Err(e) => if s.len() >= 2 && s[0] == 48 && s[1] == 120 {
            byte_numeral(s.subrange(2, s.len() as int), 16)
        } else {
            Err(e)
        },
    }
}

/// A failure met on a prefix is the failure of the whole scan.
proof fn lemma_scan_failure_persists(d: Seq<u8>, k: int, radix: nat)
    requires
        0 <= k <= d.len(),
        scan_digits(d.subrange(0, k), radix) is Err,
    ensures
        scan_digits(d, radix) == scan_digits(d.subrange(0, k), radix),
    decreases d.len(),
{
    if k == d.len() {
        assert(d.subrange(0, k) =~= d);
    } else {
        let p = d.drop_last();
        assert(p.subrange(0, k) =~= d.subrange(0, k));
        lemma_scan_failure_persists(p, k, radix);
    }
}

fn digit_value(b: u8) -> (r: u32)
    ensures
        r == digit_of(b),
{
    if 48 <= b && b <= 57 {
        (b - 48) as u32
    } else if 97 <= b && b <= 122 {
        (b - 87) as u32
    } else if 65 <= b && b <= 90 {
        (b - 55) as u32
    } else {
        36
    }
}

/// Reads the numeral that fills `s` from `start` on.
fn parse_byte_numeral(s: &[u8], start: usize, radix: u32) -> (r: Result<u8, ParseError>)
    requires
        start <= s@.len(),
        radix == 10 || radix == 16,
    ensures
        r == byte_numeral(s@.subrange(start as int, s@.len() as int), radix as nat),
{
    let len = s.len();
    let ghost text = s@.subrange(start as int, len as int);
    if start == len {
        return Err(ParseError::Empty);
    }
    let mut first = start;
    if s[first] == 43 {
        first = first + 1;
    }
    let ghost d = s@.subrange(first as int, len as int);
    assert(d =~= unsigned_digits(text));
    if first == len {
        return Err(ParseError::InvalidDigit);
    }
    let mut acc: u32 = 0;
    let mut i = first;
    assert(s@.subrange(first as int, first as int) =~= Seq::<u8>::empty());
    while i < len
        invariant
            first <= i <= len,
            len == s@.len(),
            radix == 10 || radix == 16,
            start < first || start == first,
            d == s@.subrange(first as int, len as int),
            d == unsigned_digits(s@.subrange(start as int, len as int)),
            s@.subrange(start as int, len as int).len() > 0,
            d.len() > 0,
            scan_digits(s@.subrange(first as int, i as int), radix as nat) == Ok::<nat, ParseError>(
                acc as nat,
            ),
            acc < 256,
        decreases len - i,
    {
        let ghost prefix = s@.subrange(first as int, i as int);
        let ghost next = s@.subrange(first as int, i + 1);
        assert(next.drop_last() =~= prefix);
        assert(next.last() == s@[i as int]);
        assert(d.subrange(0, i + 1 - first) =~= next);
        let v = digit_value(s[i]);
        if v >= radix {
            proof {
                lemma_scan_failure_persists(d, i + 1 - first, radix as nat);
            }
            return Err(ParseError::InvalidDigit);
        }
        assert(acc * radix <= 255 * 16) by (nonlinear_arith)
            requires
                acc < 256,
                radix <= 16,
        ;
        let n = acc * radix + v;
        if n >= 256 {
            proof {
                lemma_scan_failure_persists(d, i + 1 - first, radix as nat);
            }
            return Err(ParseError::PosOverflow);
        }
        acc = n;
        i = i + 1;
    }
    assert(s@.subrange(first as int, i as int) =~= d);
    Ok(acc as u8)
}

impl Slave {
    /// Reads an address from a decimal numeral, or from a hexadecimal one
    /// after a lowercase `0x` prefix.
    pub fn parse(s: &str) -> (r: Result<Slave, ParseError>)
        ensures
            r matches Ok(v) ==> slave_id_of_text(s.spec_bytes()) == Ok::<u8, ParseError>(v.0),
            r matches Err(e) ==> slave_id_of_text(s.spec_bytes()) == Err::<u8, ParseError>(e),
    {
        let b = s.as_bytes();
        assert(b@.subrange(0, b@.len() as int) =~= b@);
        match parse_byte_numeral(b, 0, 10) {
            Ok(v) => Ok(Slave(v)),
            Err(e) => {
                if b.len() >= 2 && b[0] == 48 && b[1] == 120 {
                    match parse_byte_numeral(b, 2, 16) {
                        Ok(v) => Ok(Slave(v)),
                        Err(e) => Err(e),
                    }
                } else {
                    Err(e)
                }
            },
        }
    }
}

impl core::str::FromStr for Slave {
    type Err = ParseError;

    fn from_str(s: &str) -> (r: Result<Self, Self::Err>)
        ensures
            r matches Ok(v) ==> slave_id_of_text(s.spec_bytes()) == Ok::<u8, ParseError>(v.0),
            r matches Err(e) ==> slave_id_of_text(s.spec_bytes()) == Err::<u8, ParseError>(e),
    {
        Slave::parse(s)
    }
}

/// The characters of the digits 0 to 15, with uppercase letters.
pub open spec fn digit_chars() -> Seq<char> {
    seq!['0', '1', '2', '3', '4', '5', '6', '7', '8', '9', 'A', 'B', 'C', 'D', 'E', 'F']
}

/// The decimal numeral of a number, without leading zeros.
pub open spec fn decimal_text(v: nat) -> Seq<char>
    decreases v,
{
    if v < 10 {
        seq![digit_chars()[v as int]]
    } else {
        decimal_text(v / 10).push(digit_chars()[(v % 10) as int])
    }
}

/// The canonical text of an address: its decimal value, then its value as
/// two uppercase hexadecimal digits, as in `123 (0x7B)`.
pub open spec fn display_text(v: u8) -> Seq<char> {
    decimal_text(v as nat) + seq![' ', '(', '0', 'x'] + seq![
        digit_chars()[(v / 16) as int],
        digit_chars()[(v % 16) as int],
        ')',
    ]
}

fn push_digit(out: &mut String, d: u8)
    requires
        d < 16,
    ensures
        final(out)@ == old(out)@.push(digit_chars()[d as int]),
{
    let digits = "0123456789ABCDEF";
    proof {
        reveal_strlit("0123456789ABCDEF");
    }
    assert(digits@ =~= digit_chars());
    let c = digits.substring_char(d as usize, d as usize + 1);
    assert(c@ =~= seq![digit_chars()[d as int]]);
    out.append(c);
}

impl Slave {
    /// The canonical text of the address, as in `123 (0x7B)`.
    pub fn to_string(&self) -> (r: String)
        ensures
            r@ == display_text(self.0),
    {
        let v = self.0;
        let mut out = String::new();
        if v >= 100 {
            push_digit(&mut out, v / 100);
        }
        if v >= 10 {
            push_digit(&mut out, (v / 10) % 10);
        }
        push_digit(&mut out, v % 10);
        let ghost dec = out@;
        assert(dec == decimal_text(v as nat)) by {
            if v >= 10 {
                assert(decimal_text(v as nat) == decimal_text((v / 10) as nat).push(
                    digit_chars()[(v % 10) as int],
                ));
                if v >= 100 {
                    assert(decimal_text((v / 10) as nat) == decimal_text((v / 100) as nat).push(
                        digit_chars()[((v / 10) % 10) as int],
                    ));
                }
            }
        }
        let open = " (0x";
        proof {
            reveal_strlit(" (0x");
        }
        out.append(open);
        push_digit(&mut out, v / 16);
        push_digit(&mut out, v % 16);
        let close = ")";
        proof {
            reveal_strlit(")");
        }
        out.append(close);
        assert(out@ =~= display_text(v));
        out
    }
}

/// Every address is exactly one of broadcast, single device or reserved, and
/// the address of a directly connected TCP device is a reserved one.
pub proof fn lemma_classification_partitions(v: u8)
    ensures
        is_broadcast_id(v) ==> !is_single_device_id(v) && !is_reserved_id(v),
        is_single_device_id(v) ==> !is_broadcast_id(v) && !is_reserved_id(v),
        is_reserved_id(v) ==> !is_broadcast_id(v) && !is_single_device_id(v),
        is_broadcast_id(v) || is_single_device_id(v) || is_reserved_id(v),
        is_reserved_id(v) <==> 248 <= v <= 255,
        v == 255 ==> is_reserved_id(v),
{
}

/// A lowercase letter among the hexadecimal digits.
pub open spec fn is_lowercase_hex_letter(c: char) -> bool {
    'a' <= c <= 'f'
}

proof fn lemma_decimal_text_has_no_letter(v: nat)
    ensures
        forall|i: int|
            0 <= i < decimal_text(v).len() ==> !is_lowercase_hex_letter(
                #[trigger] decimal_text(v)[i],
            ),
    decreases v,
{
    if v >= 10 {
        lemma_decimal_text_has_no_letter(v / 10);
        let t = decimal_text(v);
        assert forall|i: int| 0 <= i < t.len() implies !is_lowercase_hex_letter(#[trigger] t[i]) by {
            if i < t.len() - 1 {
                assert(t[i] == decimal_text(v / 10)[i]);
            }
        }
    }
}

/// The canonical text of an address writes its hexadecimal digits in
/// uppercase: no character of it is a lowercase hexadecimal letter.
pub proof fn lemma_display_hex_digits_uppercase(v: u8)
    ensures
        forall|i: int|
            0 <= i < display_text(v).len() ==> !is_lowercase_hex_letter(#[trigger] display_text(v)[i]),
{
    lemma_decimal_text_has_no_letter(v as nat);
    let d = decimal_text(v as nat);
    let t = display_text(v);
    assert forall|i: int| 0 <= i < t.len() implies !is_lowercase_hex_letter(#[trigger] t[i]) by {
        if i < d.len() {
            assert(t[i] == d[i]);
        }
    }
}

/// A connection to which a slave address can be attached.
pub trait SlaveContext {
    /// Select a slave device for all subsequent outgoing requests.
    fn set_slave(&mut self, slave: Slave);
}

} // verus!
