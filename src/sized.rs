//! Offsets given by address and byte count, written `<addr_hex>+<size>`.
use vstd::prelude::*;
use vstd::string::*;

use crate::error::{Error, ErrorKind};
use crate::text::{
    bounded_digits, find_single, int_in_range, parse_digits, parse_int, push_digits, render, single_char, string_of,
};

verus! {

/// A 16-bit offset and the number of bytes that its data occupies.
#[derive(Clone, Copy, Debug, PartialEq, Eq, Structural)]
pub struct Offset(pub u16, pub u8);

/// The byte counts an offset may have: one, two or four.
pub open spec fn valid_size(size: u8) -> bool {
    size == 1 || size == 2 || size == 4
}

/// The text of an offset: its address in hexadecimal, `+`, its size in decimal.
pub open spec fn sized_text(o: Offset) -> Seq<char> {
    render(o.0 as nat, 16) + seq!['+'] + render(o.1 as nat, 10)
}

/// The offset that `s` writes as `<addr_hex>+<size>`, if any, with a size
/// of one, two or four.
pub open spec fn sized_of_text(s: Seq<char>) -> Option<Offset> {
    if exists|i: int| single_char(s, '+', i) {
        let i = choose|i: int| single_char(s, '+', i);
        match (bounded_digits(s.subrange(0, i), 16, 0xFFFF), int_in_range(s.subrange(i + 1, s.len() as int), false, 0, 0xFF)) {
            (Some(a), Some(n)) => if valid_size(n as u8) {
                Some(Offset(a as u16, n as u8))
            } else {
                None
            },
            _ => None,
        }
    } else {
        None
    }
}

impl Offset {
    /// An offset of `size` bytes at `addr`, for sizes of 1, 2 or 4.
    pub fn from(addr: u16, size: u8) -> (r: Option<Offset>)
        ensures
            valid_size(size) ==> r == Some(Offset(addr, size)),
            !valid_size(size) ==> r is None,
    {
        if size == 1 || size == 2 || size == 4 {
            Some(Offset(addr, size))
        } else {
            None
        }
    }

    pub fn to_string(&self) -> (r: String)
        ensures
            r@ == sized_text(*self),
    {
        let mut out: Vec<char> = Vec::new();
        push_digits(self.0 as u64, 16, &mut out);
        out.push('+');
        push_digits(self.1 as u64, 10, &mut out);
        assert(out@ =~= sized_text(*self));
        string_of(out)
    }

    /// Reads an offset written as `<addr_hex>+<size>`; any size but one, two
    /// or four is `InvalidInput`.
    pub fn from_str(s: &str) -> (r: Result<Offset, Error>)
        ensures
            r matches Ok(o) ==> sized_of_text(s@) == Some(o),
            r matches Err(e) ==> sized_of_text(s@) is None && e.kind == ErrorKind::InvalidInput,
    {
        let bad = Error::new(ErrorKind::InvalidInput);
        let at = match find_single(s, '+') {
            Some(i) => i,
            None => {
                return Err(bad);
            },
        };
        let ghost k = choose|k: int| single_char(s@, '+', k);
        assert(k == at);
        let n = s.unicode_len();
        let addr = match parse_digits(s.substring_char(0, at), 16, 0xFFFF) {
            Some(a) => a,
            None => {
                return Err(bad);
            },
        };
        let size = match parse_int(s.substring_char(at + 1, n), false, 0, 0xFF) {
            Some(z) => z,
            None => {
                return Err(bad);
            },
        };
        if size != 1 && size != 2 && size != 4 {
            return Err(bad);
        }
        Ok(Offset(addr as u16, size as u8))
    }
}

} // verus!
