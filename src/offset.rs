//! FSUIPC offsets: a 16-bit address and a length tag that fixes the width
//! and the signedness of the value stored there.
use vstd::prelude::*;
use vstd::string::*;

use crate::domain::{value_number, Value};
use vstd::arithmetic::div_mod::lemma_mod_multiples_vanish;
use crate::error::{Error, ErrorKind};
use crate::text::{find_single, single_char, hex_u16, int_in_range, parse_hex_u16, push_digits, render, string_of};

verus! {

/// The address of an offset in the FSUIPC memory region.
#[derive(Clone, Copy, Debug, PartialEq, Eq, Structural)]
pub struct OffsetAddr(pub u16);

impl From<u16> for OffsetAddr {
    fn from(val: u16) -> (r: OffsetAddr) {
        OffsetAddr(val)
    }
}

impl vstd::std_specs::convert::FromSpecImpl<u16> for OffsetAddr {
    open spec fn obeys_from_spec() -> bool {
        true
    }

    open spec fn from_spec(val: u16) -> OffsetAddr {
        OffsetAddr(val)
    }
}

impl From<OffsetAddr> for u16 {
    fn from(val: OffsetAddr) -> (r: u16) {
        val.0
    }
}

impl vstd::std_specs::convert::FromSpecImpl<OffsetAddr> for u16 {
    open spec fn obeys_from_spec() -> bool {
        true
    }

    open spec fn from_spec(val: OffsetAddr) -> u16 {
        val.0
    }
}

impl OffsetAddr {
    /// Reads an address written as one to four hexadecimal digits.
    pub fn from_hex(s: &str) -> (r: Result<OffsetAddr, Error>)
        ensures
            r matches Ok(a) ==> hex_u16(s@) == Some(a.0 as int),
            r matches Err(e) ==> hex_u16(s@) is None && e.kind == ErrorKind::InvalidInput,
    {
        match parse_hex_u16(s) {
            Some(v) => Ok(OffsetAddr(v)),
            None => Err(Error::new(ErrorKind::InvalidInput)),
        }
    }

    /// The address in lowercase hexadecimal without leading zeros.
    pub fn to_string(&self) -> (r: String)
        ensures
            r@ == render(self.0 as nat, 16),
    {
        let mut out: Vec<char> = Vec::new();
        push_digits(self.0 as u64, 16, &mut out);
        assert(out@ =~= render(self.0 as nat, 16));
        string_of(out)
    }
}

/// The width and signedness of the value at an offset.
#[derive(Clone, Copy, Debug, PartialEq, Eq, Structural)]
pub enum OffsetLen {
    UnsignedByte,
    SignedByte,
    UnsignedWord,
    SignedWord,
    UnsignedDouble,
    SignedDouble,
}

/// The two-letter tag of a length on the wire.
pub open spec fn len_text(l: OffsetLen) -> Seq<char> {
    match l {
        OffsetLen::UnsignedByte => seq!['U', 'B'],
        OffsetLen::SignedByte => seq!['S', 'B'],
        OffsetLen::UnsignedWord => seq!['U', 'W'],
        OffsetLen::SignedWord => seq!['S', 'W'],
        OffsetLen::UnsignedDouble => seq!['U', 'D'],
        OffsetLen::SignedDouble => seq!['S', 'D'],
    }
}

/// The length whose tag is `s`, if any.
pub open spec fn len_of_text(s: Seq<char>) -> Option<OffsetLen> {
    if s == len_text(OffsetLen::UnsignedByte) {
        Some(OffsetLen::UnsignedByte)
    } else if s == len_text(OffsetLen::SignedByte) {
        Some(OffsetLen::SignedByte)
    } else if s == len_text(OffsetLen::UnsignedWord) {
        Some(OffsetLen::UnsignedWord)
    } else if s == len_text(OffsetLen::SignedWord) {
        Some(OffsetLen::SignedWord)
    } else if s == len_text(OffsetLen::UnsignedDouble) {
        Some(OffsetLen::UnsignedDouble)
    } else if s == len_text(OffsetLen::SignedDouble) {
        Some(OffsetLen::SignedDouble)
    } else {
        None
    }
}

/// The bytes of a little-endian unsigned integer of `size` bytes.
pub open spec fn unsigned_le(b: Seq<u8>, size: nat) -> int {
    if size == 1 {
        b[0] as int
    } else if size == 2 {
        b[0] + 256 * b[1]
    } else {
        b[0] + 256 * (b[1] + 256 * (b[2] + 256 * b[3]))
    }
}

/// Half the number of values of `size` bytes: the least value whose top bit is set.
pub open spec fn half_range(size: nat) -> int {
    if size == 1 {
        0x80
    } else if size == 2 {
        0x8000
    } else {
        0x8000_0000
    }
}

/// The value that the first bytes of `b` hold for length `l`, little-endian,
/// in two's complement where `l` is signed.
pub open spec fn decoded(l: OffsetLen, b: Seq<u8>) -> Value {
    let u = unsigned_le(b, l.size());
    let h = half_range(l.size());
    if l.signed() {
        Value::Int((if u >= h { u - 2 * h } else { u }) as isize)
    } else {
        Value::UnsignedInt(u as usize)
    }
}

/// The number that `v` is narrowed to in a field of length `l`: its residue
/// modulo the number of values of that width.
pub open spec fn narrowed(l: OffsetLen, v: Value) -> int {
    value_number(v) % (2 * half_range(l.size()))
}

/// The four bytes that store `v` at a field of length `l`, little-endian, with
/// the bytes beyond the width left zero.
pub open spec fn encoded(l: OffsetLen, v: Value) -> Seq<u8> {
    let n = narrowed(l, v);
    seq![
        (n % 256) as u8,
        ((n / 256) % 256) as u8,
        ((n / 256 / 256) % 256) as u8,
        ((n / 256 / 256 / 256) % 256) as u8,
    ]
}

/// `v` can be stored at a field of length `l` without loss.
pub open spec fn value_fits(l: OffsetLen, v: Value) -> bool {
    let h = half_range(l.size());
    if l.signed() {
        v is Int && -h <= value_number(v) < h
    } else {
        v is UnsignedInt && value_number(v) < 2 * h
    }
}

/// The zero of the signedness of `l`.
pub open spec fn zero_of(l: OffsetLen) -> Value {
    if l.signed() { Value::Int(0) } else { Value::UnsignedInt(0) }
}

impl From<OffsetLen> for usize {
    /// The number of bytes of a field of this length.
    fn from(len: OffsetLen) -> (r: usize) {
        len.byte_size()
    }
}

impl vstd::std_specs::convert::FromSpecImpl<OffsetLen> for usize {
    open spec fn obeys_from_spec() -> bool {
        true
    }

    open spec fn from_spec(len: OffsetLen) -> usize {
        len.size() as usize
    }
}

impl OffsetLen {
    pub open spec fn size(self) -> nat {
        match self {
            OffsetLen::UnsignedByte | OffsetLen::SignedByte => 1,
            OffsetLen::UnsignedWord | OffsetLen::SignedWord => 2,
            OffsetLen::UnsignedDouble | OffsetLen::SignedDouble => 4,
        }
    }

    pub open spec fn signed(self) -> bool {
        match self {
            OffsetLen::SignedByte | OffsetLen::SignedWord | OffsetLen::SignedDouble => true,
            _ => false,
        }
    }

    /// The number of bytes that a value of this length occupies.
    pub fn byte_size(&self) -> (r: usize)
        ensures
            r == self.size(),
            r == 1 || r == 2 || r == 4,
    {
        match self {
            OffsetLen::UnsignedByte | OffsetLen::SignedByte => 1,
            OffsetLen::UnsignedWord | OffsetLen::SignedWord => 2,
            OffsetLen::UnsignedDouble | OffsetLen::SignedDouble => 4,
        }
    }

    pub fn is_signed(&self) -> (r: bool)
        ensures
            r == self.signed(),
    {
        match self {
            OffsetLen::SignedByte | OffsetLen::SignedWord | OffsetLen::SignedDouble => true,
            _ => false,
        }
    }

    /// Decodes the value that `buffer` holds at a field of this length.
    pub fn decode_value(&self, buffer: &[u8; 4]) -> (r: Value)
        ensures
            r == decoded(*self, buffer@),
    {
        let b0 = buffer[0] as u32;
        let b1 = buffer[1] as u32;
        let b2 = buffer[2] as u32;
        let b3 = buffer[3] as u32;
        match self {
            OffsetLen::UnsignedByte => Value::UnsignedInt(b0 as usize),
            OffsetLen::SignedByte => {
                let u = b0 as i64;
                Value::Int((if u >= 0x80 { u - 0x100 } else { u }) as isize)
            },
            OffsetLen::UnsignedWord => Value::UnsignedInt((b0 + 256 * b1) as usize),
            OffsetLen::SignedWord => {
                let u = (b0 + 256 * b1) as i64;
                Value::Int((if u >= 0x8000 { u - 0x1_0000 } else { u }) as isize)
            },
            OffsetLen::UnsignedDouble => {
                Value::UnsignedInt((b0 + 256 * (b1 + 256 * (b2 + 256 * b3))) as usize)
            },
            OffsetLen::SignedDouble => {
                let u = (b0 + 256 * (b1 + 256 * (b2 + 256 * b3))) as i64;
                Value::Int((if u >= 0x8000_0000 { u - 0x1_0000_0000 } else { u }) as isize)
            },
        }
    }

    /// The number that `value` is narrowed to at a field of this length.
    pub fn narrow(&self, value: Value) -> (r: u32)
        ensures
            r as int == narrowed(*self, value),
    {
        let m: u128 = match self {
            OffsetLen::UnsignedByte | OffsetLen::SignedByte => 0x100,
            OffsetLen::UnsignedWord | OffsetLen::SignedWord => 0x1_0000,
            OffsetLen::UnsignedDouble | OffsetLen::SignedDouble => 0x1_0000_0000,
        };
        let t: i128 = match value {
            Value::Bool(b) => if b { 1 } else { 0 },
            Value::Int(i) => i as i128,
            Value::UnsignedInt(u) => u as i128,
        };
        let big: i128 = 0x1_0000_0000_0000_0000;
        let n: u128 = ((t + big) as u128) % m;
        proof {
            let k: int = 0x1_0000_0000_0000_0000int / (m as int);
            assert(big as int == (m as int) * k);
            lemma_mod_multiples_vanish(k, t as int, m as int);
        }
        n as u32
    }

    /// Encodes `value` for a field of this length: booleans become 1 and 0,
    /// numbers are truncated to the width.
    pub fn encode_value(&self, value: Value) -> (r: [u8; 4])
        ensures
            r@ == encoded(*self, value),
    {
        let n = self.narrow(value) as u128;
        let n1 = n / 256;
        let n2 = n1 / 256;
        let n3 = n2 / 256;
        let r: [u8; 4] = [(n % 256) as u8, (n1 % 256) as u8, (n2 % 256) as u8, (n3 % 256) as u8];
        assert(r@ =~= encoded(*self, value));
        r
    }

    /// Reads a value for a field of this length: signed lengths take an
    /// `Int`, unsigned ones an `UnsignedInt`.
    pub fn parse_value(&self, s: &str) -> (r: Result<Value, Error>)
        ensures
            self.signed() ==> (r matches Ok(v) ==> v is Int
                && int_in_range(s@, true, isize::MIN as int, isize::MAX as int) == Some(value_number(v))),
            self.signed() ==> (r is Err <==> int_in_range(s@, true, isize::MIN as int, isize::MAX as int) is None),
            !self.signed() ==> (r matches Ok(v) ==> v is UnsignedInt
                && int_in_range(s@, false, 0, usize::MAX as int) == Some(value_number(v))),
            !self.signed() ==> (r is Err <==> int_in_range(s@, false, 0, usize::MAX as int) is None),
            r matches Err(e) ==> e.kind == ErrorKind::InvalidInput,
    {
        if self.is_signed() {
            Value::parse_int(s)
        } else {
            Value::parse_uint(s)
        }
    }

    /// The two-letter tag of this length.
    pub fn to_string(&self) -> (r: String)
        ensures
            r@ == len_text(*self),
    {
        let mut out: Vec<char> = Vec::new();
        match self {
            OffsetLen::UnsignedByte => { out.push('U'); out.push('B'); },
            OffsetLen::SignedByte => { out.push('S'); out.push('B'); },
            OffsetLen::UnsignedWord => { out.push('U'); out.push('W'); },
            OffsetLen::SignedWord => { out.push('S'); out.push('W'); },
            OffsetLen::UnsignedDouble => { out.push('U'); out.push('D'); },
            OffsetLen::SignedDouble => { out.push('S'); out.push('D'); },
        }
        assert(out@ =~= len_text(*self));
        string_of(out)
    }

    /// Reads a length from its two-letter tag.
    pub fn from_str(s: &str) -> (r: Result<OffsetLen, Error>)
        ensures
            r matches Ok(l) ==> len_of_text(s@) == Some(l),
            r matches Err(e) ==> len_of_text(s@) is None && e.kind == ErrorKind::InvalidInput,
    {
        if s.unicode_len() != 2 {
            return Err(Error::new(ErrorKind::InvalidInput));
        }
        let a = s.get_char(0);
        let b = s.get_char(1);
        let r = if a == 'U' && b == 'B' {
            Ok(OffsetLen::UnsignedByte)
        } else if a == 'S' && b == 'B' {
            Ok(OffsetLen::SignedByte)
        } else if a == 'U' && b == 'W' {
            Ok(OffsetLen::UnsignedWord)
        } else if a == 'S' && b == 'W' {
            Ok(OffsetLen::SignedWord)
        } else if a == 'U' && b == 'D' {
            Ok(OffsetLen::UnsignedDouble)
        } else if a == 'S' && b == 'D' {
            Ok(OffsetLen::SignedDouble)
        } else {
            Err(Error::new(ErrorKind::InvalidInput))
        };
        assert(s@ =~= seq![a, b]);
        r
    }
}


/// An FSUIPC offset: where the value lives and how wide it is.
#[derive(Clone, Copy, Debug, PartialEq, Eq, Structural)]
pub struct Offset(pub OffsetAddr, pub OffsetLen);

/// The offset that `s` writes as `<addr>:<len>`, if any.
pub open spec fn offset_of_text(s: Seq<char>) -> Option<Offset> {
    if exists|i: int| single_char(s, ':', i) {
        let i = choose|i: int| single_char(s, ':', i);
        match (hex_u16(s.subrange(0, i)), len_of_text(s.subrange(i + 1, s.len() as int))) {
            (Some(a), Some(l)) => Some(Offset(OffsetAddr(a as u16), l)),
            _ => None,
        }
    } else {
        None
    }
}

/// The text of an offset: its address in hexadecimal, a colon, its length tag.
pub open spec fn offset_text(o: Offset) -> Seq<char> {
    render(o.0.0 as nat, 16) + seq![':'] + len_text(o.1)
}

impl Offset {
    pub fn new(addr: OffsetAddr, len: OffsetLen) -> (r: Offset)
        ensures
            r == Offset(addr, len),
    {
        Offset(addr, len)
    }

    pub fn addr(&self) -> (r: OffsetAddr)
        ensures
            r == self.0,
    {
        self.0
    }

    pub fn len(&self) -> (r: OffsetLen)
        ensures
            r == self.1,
    {
        self.1
    }

    /// Reads a value for this offset, with the signedness of its length.
    pub fn parse_value(&self, s: &str) -> (r: Result<Value, Error>)
        ensures
            self.1.signed() ==> (r matches Ok(v) ==> v is Int
                && int_in_range(s@, true, isize::MIN as int, isize::MAX as int) == Some(value_number(v))),
            self.1.signed() ==> (r is Err <==> int_in_range(s@, true, isize::MIN as int, isize::MAX as int) is None),
            !self.1.signed() ==> (r matches Ok(v) ==> v is UnsignedInt
                && int_in_range(s@, false, 0, usize::MAX as int) == Some(value_number(v))),
            !self.1.signed() ==> (r is Err <==> int_in_range(s@, false, 0, usize::MAX as int) is None),
            r matches Err(e) ==> e.kind == ErrorKind::InvalidInput,
    {
        self.1.parse_value(s)
    }

    /// Appends the text of this offset to `out`.
    pub fn push_text(&self, out: &mut Vec<char>)
        ensures
            final(out)@ == old(out)@ + offset_text(*self),
    {
        push_digits(self.0.0 as u64, 16, out);
        out.push(':');
        match self.1 {
            OffsetLen::UnsignedByte => { out.push('U'); out.push('B'); },
            OffsetLen::SignedByte => { out.push('S'); out.push('B'); },
            OffsetLen::UnsignedWord => { out.push('U'); out.push('W'); },
            OffsetLen::SignedWord => { out.push('S'); out.push('W'); },
            OffsetLen::UnsignedDouble => { out.push('U'); out.push('D'); },
            OffsetLen::SignedDouble => { out.push('S'); out.push('D'); },
        }
        assert(final(out)@ =~= old(out)@ + offset_text(*self));
    }

    /// The text of this offset, such as `1234:UW`.
    pub fn to_string(&self) -> (r: String)
        ensures
            r@ == offset_text(*self),
    {
        let mut out: Vec<char> = Vec::new();
        self.push_text(&mut out);
        assert(out@ =~= offset_text(*self));
        string_of(out)
    }

    /// Reads an offset written as `<addr>:<len>`.
    pub fn from_str(s: &str) -> (r: Result<Offset, Error>)
        ensures
            r matches Ok(o) ==> offset_of_text(s@) == Some(o),
            r matches Err(e) ==> offset_of_text(s@) is None && e.kind == ErrorKind::InvalidInput,
    {
        let at = match find_single(s, ':') {
            Some(i) => i,
            None => {
                return Err(Error::new(ErrorKind::InvalidInput));
            },
        };
        let ghost k = choose|k: int| single_char(s@, ':', k);
        assert(k == at);
        let n = s.unicode_len();
        let addr = match OffsetAddr::from_hex(s.substring_char(0, at)) {
            Ok(a) => a,
            Err(e) => {
                return Err(e);
            },
        };
        let len = match OffsetLen::from_str(s.substring_char(at + 1, n)) {
            Ok(l) => l,
            Err(e) => {
                return Err(e);
            },
        };
        Ok(Offset(addr, len))
    }
}

/// The byte count of every length is one, two or four.
pub proof fn lemma_sizes(l: OffsetLen)
    ensures
        <usize as vstd::std_specs::convert::FromSpec<OffsetLen>>::from_spec(l) == 1
            || <usize as vstd::std_specs::convert::FromSpec<OffsetLen>>::from_spec(l) == 2
            || <usize as vstd::std_specs::convert::FromSpec<OffsetLen>>::from_spec(l) == 4,
        l.size() == (if l == OffsetLen::UnsignedByte || l == OffsetLen::SignedByte {
            1nat
        } else if l == OffsetLen::UnsignedWord || l == OffsetLen::SignedWord {
            2nat
        } else {
            4nat
        }),
{
}

/// Every length occupies one, two or four bytes, and a buffer of zeros
/// decodes to the zero of the length's signedness.
pub proof fn lemma_zero_buffer(l: OffsetLen)
    ensures
        l.size() == 1 || l.size() == 2 || l.size() == 4,
        decoded(l, seq![0u8, 0u8, 0u8, 0u8]) == zero_of(l),
{
}

/// Encoding a value that fits a length and decoding the bytes gives the value back.
pub proof fn lemma_encode_decode(l: OffsetLen, v: Value)
    requires
        value_fits(l, v),
    ensures
        decoded(l, encoded(l, v)) == v,
{
    let h = half_range(l.size());
    let m = 2 * h;
    let x = value_number(v);
    let n = narrowed(l, v);
    assert(0 <= n < m);
    if x >= 0 {
        assert(n == x) by {
            vstd::arithmetic::div_mod::lemma_small_mod(x as nat, m as nat);
        }
    } else {
        assert(n == x + m) by {
            vstd::arithmetic::div_mod::lemma_mod_multiples_vanish(1, x, m);
            vstd::arithmetic::div_mod::lemma_small_mod((x + m) as nat, m as nat);
        }
    }
    let b = encoded(l, v);
    let n1 = n / 256;
    let n2 = n1 / 256;
    let n3 = n2 / 256;
    assert(n == 256 * n1 + n % 256);
    assert(n1 == 256 * n2 + n1 % 256);
    assert(n2 == 256 * n3 + n2 % 256);
    assert(n < 0x1_0000_0000);
    if l.size() == 1 {
        assert(b[0] as int == n);
    } else if l.size() == 2 {
        assert(n1 < 256);
        assert(b[1] as int == n1);
        assert(unsigned_le(b, 2) == n);
    } else {
        assert(n3 < 256);
        assert(b[3] as int == n3);
        assert(unsigned_le(b, 4) == n);
    }
}

} // verus!
