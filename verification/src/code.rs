//! Room codes: short random values that identify a live room. A code is
//! unique among currently-live rooms (the registry picks fresh ones); it is
//! the only credential needed to join the room it names.

use vstd::prelude::*;
use vstd::slice::slice_to_vec;
use vstd::string::StringExecFns;

use crate::proto::error::DecodeError;

verus! {

/// The number of bytes in a room code.
pub const CODE_SIZE: usize = 4;

/// A room code: 4 raw bytes. On the wire it is written as-is, with no
/// length prefix.
#[derive(Debug, PartialEq, Eq)]
pub struct Code {
    bytes: Vec<u8>,
}

impl View for Code {
    type V = Seq<u8>;

    closed spec fn view(&self) -> Seq<u8> {
        self.bytes@
    }
}

impl Code {
    /// A well-formed code holds exactly 4 bytes.
    pub open spec fn wf(self) -> bool {
        self@.len() == CODE_SIZE
    }

    /// A code with fresh random bytes. Nothing is known of the bytes:
    /// callers that need a code unused so far must test and retry.
    pub fn new() -> (r: Code)
        ensures
            r.wf(),
    {
        Code { bytes: random_code_bytes() }
    }

    /// The code's bytes.
    pub fn as_slice(&self) -> (r: &[u8])
        ensures
            r@ == self@,
    {
        self.bytes.as_slice()
    }

    /// The code whose bytes are the given slice; fails unless the slice
    /// holds exactly 4 bytes.
    pub fn try_from(value: &[u8]) -> (r: Result<Code, DecodeError>)
        ensures
            match r {
                Ok(c) => c@ == value@ && c.wf(),
                Err(e) => value@.len() != CODE_SIZE && e == (DecodeError::BufferTooSmall {
                    min: CODE_SIZE,
                    remaining: value@.len() as usize,
                }),
            },
    {
        if value.len() != CODE_SIZE {
            Err(DecodeError::BufferTooSmall { min: CODE_SIZE, remaining: value.len() })
        } else {
            Ok(Code { bytes: slice_to_vec(value) })
        }
    }

    /// Whether two codes hold the same bytes.
    pub fn same_as(&self, other: &Code) -> (r: bool)
        ensures
            r == (self@ == other@),
    {
        let r = self.bytes == other.bytes;
        proof {
            if r {
                assert(self.bytes@ =~= other.bytes@);
            } else {
                assert(!(self.bytes@ =~= other.bytes@));
            }
        }
        r
    }

    /// The code as text: a `#` followed by its bytes in lowercase hex, the
    /// form the relay's diagnostics print.
    pub fn to_display_string(&self) -> (r: String)
        ensures
            r@ == seq!['#'].add(hex_of(self@)),
    {
        proof {
            reveal_strlit("#");
        }
        let mut s = String::from_str("#");
        let h = hex_lower(&self.bytes);
        s.append(h.as_str());
        proof {
            assert(s@ =~= seq!['#'].add(hex_of(self@)));
        }
        s
    }
}

impl Clone for Code {
    fn clone(&self) -> (r: Self)
        ensures
            r@ == self@,
    {
        Code { bytes: slice_to_vec(self.bytes.as_slice()) }
    }
}

/// The lowercase hex digit of a value below 16.
pub open spec fn hex_digit(n: u8) -> char
    recommends
        n < 16,
{
    if n < 10 {
        (('0' as u8) + n) as char
    } else {
        (('a' as u8) + (n - 10)) as char
    }
}

/// The lowercase hex spelling of a byte sequence: two digits per byte,
/// high nibble first.
pub open spec fn hex_of(s: Seq<u8>) -> Seq<char>
    decreases s.len(),
{
    if s.len() == 0 {
        Seq::empty()
    } else {
        seq![hex_digit(s[0] / 16), hex_digit(s[0] % 16)].add(hex_of(s.skip(1)))
    }
}

/// Relies on `hex::encode`: the lowercase hex spelling of the bytes, two
/// digits per byte, high nibble first.
#[verifier::external_body]
fn hex_lower(bytes: &Vec<u8>) -> (r: String)
    ensures
        r@ == hex_of(bytes@),
{
    hex::encode(bytes.as_slice())
}

/// Relies on `rand::random`: 4 bytes drawn from the thread-local generator.
/// Nothing is assumed of the bytes themselves beyond their number.
#[verifier::external_body]
fn random_code_bytes() -> (r: Vec<u8>)
    ensures
        r@.len() == 4,
{
    rand::random::<[u8; 4]>().to_vec()
}

} // verus!
