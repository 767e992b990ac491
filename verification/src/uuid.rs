use vstd::prelude::*;
use vstd::string::*;

use crate::error::{ErrorKind, NipartError};
use crate::text::str_to_string;

verus! {

/// A UUID held as its 128-bit value.
#[derive(Debug, Clone, Copy, PartialEq, Eq, Structural, Hash)]
pub struct NipartUuid(pub u128);

/// The lower case hexadecimal digit of a value below 16.
pub open spec fn lower_hex_char(d: int) -> char {
    if d < 10 {
        (('0' as int) + d) as char
    } else {
        (('a' as int) + d - 10) as char
    }
}

/// The `i`-th of the 32 hexadecimal digits of a 128-bit value, most
/// significant first.
pub open spec fn uuid_digit(n: u128, i: int) -> int {
    ((n >> ((4 * (31 - i)) as u128)) & 15u128) as int
}

/// The position among the 32 digits shown at position `k` of the hyphenated
/// text (hyphens at 8, 13, 18 and 23).
pub open spec fn digit_index(k: int) -> int {
    if k < 8 {
        k
    } else if k < 13 {
        k - 1
    } else if k < 18 {
        k - 2
    } else if k < 23 {
        k - 3
    } else {
        k - 4
    }
}

/// The hyphenated lower case text of a UUID: 8-4-4-4-12 hexadecimal digits.
pub open spec fn uuid_hyphenated(n: u128) -> Seq<char> {
    Seq::new(
        36,
        |k: int|
            if k == 8 || k == 13 || k == 18 || k == 23 {
                '-'
            } else {
                lower_hex_char(uuid_digit(n, digit_index(k)))
            },
    )
}

/// What parsing a UUID text gives, when it is a UUID in one of the forms the
/// parser accepts (simple, hyphenated, braced, URN).
pub uninterp spec fn uuid_parsed(s: Seq<char>) -> Option<u128>;

/// A new time-ordered (version 7) UUID from `uuid::Uuid::now_v7`; the crate
/// sets its version bits, so it is never the nil UUID. Nothing else is
/// claimed: the value depends on the clock and on chance.
#[verifier::external_body]
fn now_v7_value() -> (r: u128)
    ensures
        r != 0,
{
    uuid::Uuid::now_v7().as_u128()
}

/// `uuid::Uuid::parse_str` with the result as its 128-bit value. Besides
/// naming the result, the contract claims one fact of the parser: the
/// 36-character hyphenated form of a value (what the crate displays) is
/// parsed back to that value.
#[verifier::external_body]
fn parse_uuid(s: &str) -> (r: Option<u128>)
    ensures
        r == uuid_parsed(s@),
        forall|n: u128| #[trigger] uuid_hyphenated(n) == s@ ==> r == Some(n),
{
    uuid::Uuid::parse_str(s).ok().map(|u| u.as_u128())
}

/// The error text of `uuid::Uuid::parse_str` on a text it refuses (empty
/// when it accepts the text). Nothing is claimed of the text.
#[verifier::external_body]
fn uuid_parse_error(s: &str) -> (r: String)
{
    match uuid::Uuid::parse_str(s) {
        Err(e) => e.to_string(),
        Ok(_) => String::new(),
    }
}

/// The text `uuid::Uuid` displays for a value: hyphenated lower case
/// hexadecimal digits.
#[verifier::external_body]
fn uuid_text(n: u128) -> (r: String)
    ensures
        r@ == uuid_hyphenated(n),
{
    uuid::Uuid::from_u128(n).to_string()
}

impl NipartUuid {
    /// The nil UUID, standing for no UUID.
    pub fn void() -> (r: Self)
        ensures
            r.0 == 0,
    {
        NipartUuid(0)
    }

    /// A new time-ordered UUID, never the nil one.
    pub fn new() -> (r: Self)
        ensures
            r.0 != 0,
    {
        NipartUuid(now_v7_value())
    }

    /// The UUID of a 128-bit value.
    pub fn from_u128(d: u128) -> (r: Self)
        ensures
            r.0 == d,
    {
        NipartUuid(d)
    }

    /// The 128-bit value.
    pub fn as_u128(&self) -> (r: u128)
        ensures
            r == self.0,
    {
        self.0
    }

    /// Parse a UUID text; refused when it is not a UUID. The text a UUID
    /// is displayed as parses back to it.
    pub fn from_str(s: &str) -> (r: Result<Self, NipartError>)
        ensures
            r is Ok <==> uuid_parsed(s@) is Some,
            r matches Ok(u) ==> Some(u.0) == uuid_parsed(s@),
            r matches Err(e) ==> e.kind == ErrorKind::InvalidArgument,
            forall|n: u128| #[trigger] uuid_hyphenated(n) == s@ ==> r is Ok && r->Ok_0.0 == n,
    {
        match parse_uuid(s) {
            Some(v) => Ok(NipartUuid(v)),
            None => {
                let reason = uuid_parse_error(s);
                let mut msg = str_to_string("Invalid UUID string ");
                msg.append(s);
                msg.append(": ");
                msg.append(reason.as_str());
                Err(NipartError::new(ErrorKind::InvalidArgument, msg))
            },
        }
    }

    /// Hyphenated lower case text of the UUID.
    pub fn to_display_string(&self) -> (r: String)
        ensures
            r@ == uuid_hyphenated(self.0),
    {
        uuid_text(self.0)
    }
}

impl Default for NipartUuid {
    fn default() -> (r: Self)
        ensures
            r.0 == 0,
    {
        NipartUuid(0)
    }
}

} // verus!
