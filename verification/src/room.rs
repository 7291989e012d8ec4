//! Room identifiers: version-4 UUIDs that the operator types in.

use vstd::prelude::*;
use crate::error::Failure;
use crate::text::{chars_of, string_of, trim, trimmed};

verus! {

#[verifier::external_type_specification]
#[verifier::external_body]
pub struct ExUuidError(uuid::Error);

/// The 128-bit value that the `uuid` crate reads from a text, or `None` where
/// it reads none. The crate takes the simple, hyphenated, URN and braced forms
/// of a UUID, in either letter case.
pub uninterp spec fn uuid_parsed(text: Seq<char>) -> Option<u128>;

/// Whether the version field of a 128-bit UUID value, the high four bits of
/// its seventh byte, says 4.
pub open spec fn is_version_4(value: u128) -> bool {
    (value >> 76) & 0xf == 4
}

/// The lower-case hexadecimal digit for `d`, for `d` from 0 to 15.
pub open spec fn hex_digit(d: u128) -> char {
    if d == 0 {
        '0'
    } else if d == 1 {
        '1'
    } else if d == 2 {
        '2'
    } else if d == 3 {
        '3'
    } else if d == 4 {
        '4'
    } else if d == 5 {
        '5'
    } else if d == 6 {
        '6'
    } else if d == 7 {
        '7'
    } else if d == 8 {
        '8'
    } else if d == 9 {
        '9'
    } else if d == 10 {
        'a'
    } else if d == 11 {
        'b'
    } else if d == 12 {
        'c'
    } else if d == 13 {
        'd'
    } else if d == 14 {
        'e'
    } else {
        'f'
    }
}

/// The `k`-th hexadecimal digit of a 128-bit value, counted from the most
/// significant (`k` from 0 to 31).
pub open spec fn nibble(value: u128, k: int) -> u128 {
    (value >> ((4 * (31 - k)) as u128)) & 0xf
}

/// Which hexadecimal digit stands at position `i` of the hyphenated form,
/// for a position that holds no hyphen.
pub open spec fn digit_index(i: int) -> int {
    if i < 8 {
        i
    } else if i < 13 {
        i - 1
    } else if i < 18 {
        i - 2
    } else if i < 23 {
        i - 3
    } else {
        i - 4
    }
}

/// The hyphenated form of a 128-bit UUID value: its 32 lower-case hexadecimal
/// digits, most significant first, in groups of 8, 4, 4, 4 and 12 with a
/// hyphen between groups.
pub open spec fn hyphenated(value: u128) -> Seq<char> {
    Seq::new(
        36,
        |i: int|
            if i == 8 || i == 13 || i == 18 || i == 23 {
                '-'
            } else {
                hex_digit(nibble(value, digit_index(i)))
            },
    )
}

/// The identifier of a room: a version-4 UUID.
#[derive(Clone, Copy, Debug, PartialEq, Eq)]
pub struct RoomId {
    value: u128,
}

impl RoomId {
    #[verifier::type_invariant]
    spec fn version_is_4(self) -> bool {
        is_version_4(self.value)
    }

    /// The identifier as a 128-bit number.
    pub closed spec fn spec_value(&self) -> u128 {
        self.value
    }

    /// The room of a 128-bit UUID value, if its version is 4.
    pub fn from_value(value: u128) -> (r: Option<RoomId>)
        ensures
            r is Some <==> is_version_4(value),
            r is Some ==> r->0.spec_value() == value,
    {
        if (value >> 76) & 0xf == 4 {
            Some(RoomId { value })
        } else {
            None
        }
    }

    /// Reads a room identifier as the operator typed it: surrounding white
    /// space is dropped, and what is left must be a UUID of version 4.
    /// Anything else is a protocol error that carries the text.
    pub fn parse(input: &str) -> (r: Result<RoomId, Failure>)
        ensures
            r is Ok <==> (uuid_parsed(trimmed(input@)) matches Some(v) && is_version_4(v)),
            r matches Ok(room) ==> uuid_parsed(trimmed(input@)) == Some(room.spec_value()),
            r is Err ==> (r matches Err(Failure::InvalidRoomId(t)) && t@ == trimmed(input@)),
    {
        let chars = chars_of(input);
        let text = string_of(&trim(&chars));
        match uuid_from_text(text.as_str()) {
            Ok(value) => match RoomId::from_value(value) {
                Some(room) => Ok(room),
                None => Err(Failure::InvalidRoomId(text)),
            },
            Err(_) => Err(Failure::InvalidRoomId(text)),
        }
    }

    /// The identifier as a 128-bit number.
    pub fn value(&self) -> (v: u128)
        ensures
            v == self.spec_value(),
            is_version_4(v),
    {
        proof {
            use_type_invariant(self);
        }
        self.value
    }

    /// The identifier in hyphenated form, as it goes over the wire.
    pub fn to_text(&self) -> (s: String)
        ensures
            s@ == hyphenated(self.spec_value()),
    {
        uuid_to_text(self.value)
    }
}

/// `uuid::Uuid::parse_str`, with the UUID taken as the 128-bit number that
/// `Uuid::as_u128` gives. Succeeds exactly on the texts that the crate reads
/// as a UUID, and then returns the value it reads.
#[verifier::external_body]
fn uuid_from_text(text: &str) -> (r: Result<u128, uuid::Error>)
    ensures
        r is Ok <==> uuid_parsed(text@) is Some,
        r is Ok ==> uuid_parsed(text@) == Some(r->Ok_0),
{
    match uuid::Uuid::parse_str(text) {
        Ok(id) => Ok(id.as_u128()),
        Err(e) => Err(e),
    }
}

/// `uuid::Uuid::hyphenated`, written out as a string, for the UUID that
/// `Uuid::from_u128` makes of the value: 36 characters, lower-case
/// hexadecimal digits from the most significant down, hyphens after the 8th,
/// 12th, 16th and 20th digit.
#[verifier::external_body]
fn uuid_to_text(value: u128) -> (s: String)
    ensures
        s@ == hyphenated(value),
{
    uuid::Uuid::from_u128(value).hyphenated().to_string()
}

} // verus!
