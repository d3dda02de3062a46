use vstd::prelude::*;
use vstd::string::*;

use buss_protocol::FromBytes;

use crate::source::{be_u32_at, DecodeError};

verus! {

/// The magic number that opens every request of the protocol.
pub const MAGIC: u32 = 0x00042069;

/// What a request asks the server to do.
#[derive(Debug, Clone, Copy, PartialEq, Eq, Structural)]
pub enum Action {
    Noop,
    Read,
    Write,
    Modify,
    Delete,
}

/// The fixed eight-byte prefix of a request.
#[derive(Debug, Clone, Copy, PartialEq, Eq, Structural)]
pub struct Header {
    pub magic_number: u32,
    pub version_major: u8,
    pub version_minor: u8,
    pub action: Action,
    pub flags: u8,
}

/// The action that a header's action byte stands for, if any.
pub open spec fn action_spec(b: u8) -> Option<Action> {
    if b == 0 {
        Some(Action::Noop)
    } else if b == 1 {
        Some(Action::Read)
    } else if b == 2 {
        Some(Action::Write)
    } else if b == 3 {
        Some(Action::Modify)
    } else if b == 4 {
        Some(Action::Delete)
    } else {
        None
    }
}

/// The flag bit that marks text fields as UTF-16 (big-endian).
pub open spec fn utf16_bit() -> u8 {
    1
}

/// Whether the header's flags ask for UTF-16 text.
pub open spec fn flags_utf16(flags: u8) -> bool {
    flags & utf16_bit() == utf16_bit()
}

/// Relies on the constant `buss_flags::UTF16` of buss-protocol: bit 0.
#[verifier::external_body]
fn utf16_flag() -> (r: u8)
    ensures
        r == utf16_bit(),
{
    buss_protocol::buss_flags::UTF16
}

/// Relies on `BussHeader::from_bytes` of buss-protocol: the magic number is the
/// first four bytes read big-endian, then come the major and minor version, the
/// action and the flags, one byte each. The action goes back to its byte
/// through the enum's `repr(u8)`. It unwraps the action's conversion, which
/// panics on a byte above 4: `requires` leaves that out.
#[verifier::external_body]
fn buss_header_fields(bytes: &[u8; 8]) -> (r: (u32, u8, u8, u8, u8))
    requires
        bytes@[6] <= 4,
    ensures
        r.0 == be_u32_at(bytes@, 0),
        r.1 == bytes@[4],
        r.2 == bytes@[5],
        r.3 == bytes@[6],
        r.4 == bytes@[7],
{
    let h = buss_protocol::BussHeader::from_bytes(bytes);
    (h.magic_number, h.version_major, h.version_minor, h.action as u8, h.flags)
}

/// Whether every bit of `flag` is set in `flags`.
pub fn has_flag(flags: u8, flag: u8) -> (r: bool)
    ensures
        r == (flags & flag == flag),
{
    (flags & flag) == flag
}

/// Whether the flags ask for UTF-16 text fields.
pub fn is_utf16(flags: u8) -> (r: bool)
    ensures
        r == flags_utf16(flags),
{
    has_flag(flags, utf16_flag())
}

/// The action for an action byte, if the protocol has one.
pub fn action_from_u8(b: u8) -> (r: Option<Action>)
    ensures
        r == action_spec(b),
{
    match b {
        0 => Some(Action::Noop),
        1 => Some(Action::Read),
        2 => Some(Action::Write),
        3 => Some(Action::Modify),
        4 => Some(Action::Delete),
        _ => None,
    }
}

/// The header that eight bytes encode.
pub open spec fn header_spec(bytes: Seq<u8>) -> Option<Header> {
    match action_spec(bytes[6]) {
        Some(action) => Some(
            Header {
                magic_number: be_u32_at(bytes, 0) as u32,
                version_major: bytes[4],
                version_minor: bytes[5],
                action,
                flags: bytes[7],
            },
        ),
        None => None,
    }
}

/// Decodes the fixed header. An action byte outside the protocol's set is
/// refused with `InvalidAction`; the magic number is left for the caller to
/// check.
pub fn decode_header(bytes: &[u8; 8]) -> (r: Result<Header, DecodeError>)
    ensures
        header_spec(bytes@) matches Some(h) ==> r == Ok::<Header, DecodeError>(h),
        header_spec(bytes@) is None ==> r == Err::<Header, DecodeError>(
            DecodeError::InvalidAction,
        ),
{
    let action = match action_from_u8(bytes[6]) {
        Some(a) => a,
        None => return Err(DecodeError::InvalidAction),
    };
    let (magic_number, version_major, version_minor, _, flags) = buss_header_fields(bytes);
    Ok(Header { magic_number, version_major, version_minor, action, flags })
}

/// Whether the header carries the protocol's magic number.
pub fn has_valid_magic(h: &Header) -> (r: bool)
    ensures
        r == (h.magic_number == MAGIC),
{
    h.magic_number == MAGIC
}

/// The name under which an action is shown.
pub open spec fn action_name(a: Action) -> Seq<char> {
    match a {
        Action::Noop => "NOOP"@,
        Action::Read => "READ"@,
        Action::Write => "WRITE"@,
        Action::Modify => "MOFIFY"@,
        Action::Delete => "DELETE"@,
    }
}

/// The name under which an action is shown.
pub fn action_to_string(value: Action) -> (r: String)
    ensures
        r@ == action_name(value),
{
    let name = match value {
        Action::Noop => "NOOP",
        Action::Read => "READ",
        Action::Write => "WRITE",
        Action::Modify => "MOFIFY",
        Action::Delete => "DELETE",
    };
    String::from_str(name)
}

} // verus!
