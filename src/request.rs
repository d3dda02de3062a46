use vstd::prelude::*;

use crate::header::{decode_header, flags_utf16, has_valid_magic, header_spec, is_utf16, Header, MAGIC};
use crate::source::{be_u16_at, be_u32_at, ByteSource, DecodeError};
use crate::text::{
    decode_lossy, lemma_u32_be_bytes, read_buss_string, string_field, u32_be_bytes, utf8_lossy_of,
};

verus! {

/// The settings tags that the protocol recognises.
#[derive(Debug, Clone, Copy, PartialEq, Eq, Structural)]
pub enum SettingsKind {
    BodyLength,
    Host,
    Custom,
}

/// One decoded settings entry, in the order of the stream.
#[derive(Debug, PartialEq, Eq)]
pub enum SettingsEntry {
    /// The announced body length; informational only.
    BodyLength(u32),
    /// The host name, decoded strictly.
    Host(String),
    /// A custom entry: only the length of its skipped payload is kept.
    Custom(u32),
    /// A tag byte outside the recognised set; no payload was read for it.
    Unknown(u8),
}

/// The mathematical value of a settings entry.
pub enum EntryModel {
    BodyLength(u32),
    Host(Seq<char>),
    Custom(u32),
    Unknown(u8),
}

impl View for SettingsEntry {
    type V = EntryModel;

    open spec fn view(&self) -> EntryModel {
        match self {
            SettingsEntry::BodyLength(n) => EntryModel::BodyLength(*n),
            SettingsEntry::Host(s) => EntryModel::Host(s@),
            SettingsEntry::Custom(n) => EntryModel::Custom(*n),
            SettingsEntry::Unknown(t) => EntryModel::Unknown(*t),
        }
    }
}

/// A fully decoded request.
#[derive(Debug, PartialEq, Eq)]
pub struct DecodedRequest {
    pub header: Header,
    /// The path, decoded leniently.
    pub path: String,
    pub settings: Vec<SettingsEntry>,
    /// Everything after the last settings entry.
    pub body: Vec<u8>,
}

/// The mathematical value of a decoded request.
pub struct RequestModel {
    pub header: Header,
    pub path: Seq<char>,
    pub settings: Seq<EntryModel>,
    pub body: Seq<u8>,
}

pub open spec fn entries_view(v: Seq<SettingsEntry>) -> Seq<EntryModel> {
    v.map_values(|e: SettingsEntry| e@)
}

impl View for DecodedRequest {
    type V = RequestModel;

    open spec fn view(&self) -> RequestModel {
        RequestModel {
            header: self.header,
            path: self.path@,
            settings: entries_view(self.settings@),
            body: self.body@,
        }
    }
}

/// The recognised tag that a byte stands for, if any.
pub open spec fn tag_spec(value: u8) -> Option<SettingsKind> {
    if value == 0 {
        Some(SettingsKind::BodyLength)
    } else if value == 1 {
        Some(SettingsKind::Host)
    } else if value == 0xFF {
        Some(SettingsKind::Custom)
    } else {
        None
    }
}

/// The payload that follows tag byte `tag`, which starts at `pos`: the entry and
/// the position after it.
pub open spec fn payload_spec(tag: u8, s: Seq<u8>, pos: int, utf16: bool) -> Result<
    (EntryModel, int),
    DecodeError,
> {
    match tag_spec(tag) {
        Some(SettingsKind::BodyLength) => if pos + 4 > s.len() {
            Err(DecodeError::TruncatedStream)
        } else {
            Ok((EntryModel::BodyLength(be_u32_at(s, pos) as u32), pos + 4))
        },
        Some(SettingsKind::Host) => match string_field(s, pos, utf16) {
            Ok((t, q)) => Ok((EntryModel::Host(t), q)),
            Err(e) => Err(e),
        },
        Some(SettingsKind::Custom) => if pos + 4 > s.len() {
            Err(DecodeError::TruncatedStream)
        } else if pos + 4 + be_u32_at(s, pos) > s.len() {
            Err(DecodeError::TruncatedStream)
        } else {
            Ok((EntryModel::Custom(be_u32_at(s, pos) as u32), pos + 4 + be_u32_at(s, pos)))
        },
        None => Ok((EntryModel::Unknown(tag), pos)),
    }
}

/// The settings entry at `pos`: its tag byte, then its payload.
pub open spec fn entry_spec(s: Seq<u8>, pos: int, utf16: bool) -> Result<
    (EntryModel, int),
    DecodeError,
> {
    if pos + 1 > s.len() {
        Err(DecodeError::TruncatedStream)
    } else {
        payload_spec(s[pos], s, pos + 1, utf16)
    }
}

/// The first `n` settings entries from `pos` on, and the position after them.
pub open spec fn entries_spec(s: Seq<u8>, pos: int, n: nat, utf16: bool) -> Result<
    (Seq<EntryModel>, int),
    DecodeError,
>
    decreases n,
{
    if n == 0 {
        Ok((Seq::empty(), pos))
    } else {
        match entries_spec(s, pos, (n - 1) as nat, utf16) {
            Err(e) => Err(e),
            Ok((es, p)) => match entry_spec(s, p, utf16) {
                Err(e) => Err(e),
                Ok((e, q)) => Ok((es.push(e), q)),
            },
        }
    }
}

/// The request whose header is `h` and whose remaining bytes are those of `s`
/// from `pos` on.
pub open spec fn request_spec(h: Header, s: Seq<u8>, pos: int) -> Result<RequestModel, DecodeError> {
    if h.magic_number != MAGIC {
        Err(DecodeError::InvalidMagic)
    } else if pos + 4 > s.len() {
        Err(DecodeError::TruncatedStream)
    } else if pos + 4 + be_u32_at(s, pos) > s.len() {
        Err(DecodeError::TruncatedStream)
    } else {
        let p = pos + 4 + be_u32_at(s, pos);
        if p + 2 > s.len() {
            Err(DecodeError::TruncatedStream)
        } else {
            match entries_spec(s, p + 2, be_u16_at(s, p) as nat, flags_utf16(h.flags)) {
                Err(e) => Err(e),
                Ok((es, q)) => Ok(
                    RequestModel {
                        header: h,
                        path: utf8_lossy_of(s.subrange(pos + 4, p)),
                        settings: es,
                        body: s.subrange(q, s.len() as int),
                    },
                ),
            }
        }
    }
}

/// The recognised tag that a byte stands for, if any.
pub fn u8_to_settings(value: u8) -> (r: Option<SettingsKind>)
    ensures
        r == tag_spec(value),
{
    match value {
        0 => Some(SettingsKind::BodyLength),
        1 => Some(SettingsKind::Host),
        0xff => Some(SettingsKind::Custom),
        _ => None,
    }
}

/// Decodes the payload that follows the tag byte `tag`. A custom payload is
/// skipped; an unknown tag reads nothing.
pub fn decode_settings_entry(tag: u8, stream: &mut ByteSource, is_utf16: bool) -> (r: Result<
    SettingsEntry,
    DecodeError,
>)
    requires
        old(stream).wf(),
    ensures
        final(stream).wf(),
        final(stream).bytes() == old(stream).bytes(),
        payload_spec(tag, old(stream).bytes(), old(stream).pos(), is_utf16) matches Ok((e, q))
            ==> r is Ok && r->Ok_0@ == e && final(stream).pos() == q,
        payload_spec(tag, old(stream).bytes(), old(stream).pos(), is_utf16) matches Err(e) ==> r
            == Err::<SettingsEntry, DecodeError>(e),
{
    match u8_to_settings(tag) {
        Some(SettingsKind::BodyLength) => match stream.read_u32() {
            Ok(n) => Ok(SettingsEntry::BodyLength(n)),
            Err(e) => Err(e),
        },
        Some(SettingsKind::Host) => match read_buss_string(stream, is_utf16) {
            Ok(s) => Ok(SettingsEntry::Host(s)),
            Err(e) => Err(e),
        },
        Some(SettingsKind::Custom) => {
            let length = match stream.read_u32() {
                Ok(n) => n,
                Err(e) => return Err(e),
            };
            match stream.skip(length as u64) {
                Ok(()) => Ok(SettingsEntry::Custom(length)),
                Err(e) => Err(e),
            }
        },
        None => Ok(SettingsEntry::Unknown(tag)),
    }
}

/// Once `n` entries fail, every longer run of entries fails the same way.
proof fn lemma_entries_err(s: Seq<u8>, pos: int, n: nat, m: nat, utf16: bool)
    requires
        n <= m,
        entries_spec(s, pos, n, utf16) is Err,
    ensures
        entries_spec(s, pos, m, utf16) == entries_spec(s, pos, n, utf16),
    decreases m,
{
    if m > n {
        lemma_entries_err(s, pos, n, (m - 1) as nat, utf16);
    }
}

/// Reads `count` settings entries.
fn decode_settings(stream: &mut ByteSource, count: u16, is_utf16: bool) -> (r: Result<
    Vec<SettingsEntry>,
    DecodeError,
>)
    requires
        old(stream).wf(),
    ensures
        final(stream).wf(),
        final(stream).bytes() == old(stream).bytes(),
        entries_spec(old(stream).bytes(), old(stream).pos(), count as nat, is_utf16) matches Ok(
            (es, q),
        ) ==> r is Ok && entries_view(r->Ok_0@) == es && final(stream).pos() == q,
        entries_spec(old(stream).bytes(), old(stream).pos(), count as nat, is_utf16) matches Err(e)
            ==> r == Err::<Vec<SettingsEntry>, DecodeError>(e),
{
    let ghost s = stream.bytes();
    let ghost p0 = stream.pos();
    let mut settings: Vec<SettingsEntry> = Vec::new();
    let mut i: u16 = 0;
    assert(entries_view(settings@) =~= Seq::<EntryModel>::empty());
    while i < count
        invariant
            stream.wf(),
            stream.bytes() == s,
            s == old(stream).bytes(),
            p0 == old(stream).pos(),
            i <= count,
            entries_spec(s, p0, i as nat, is_utf16) == Ok::<(Seq<EntryModel>, int), DecodeError>(
                (entries_view(settings@), stream.pos()),
            ),
        decreases count - i,
    {
        let ghost before = settings@;
        let tag = match stream.read_u8() {
            Ok(t) => t,
            Err(e) => {
                proof {
                    lemma_entries_err(s, p0, (i + 1) as nat, count as nat, is_utf16);
                }
                return Err(e);
            },
        };
        match decode_settings_entry(tag, stream, is_utf16) {
            Ok(entry) => {
                settings.push(entry);
                assert(entries_view(settings@) =~= entries_view(before).push(entry@));
            },
            Err(e) => {
                proof {
                    lemma_entries_err(s, p0, (i + 1) as nat, count as nat, is_utf16);
                }
                return Err(e);
            },
        }
        i = i + 1;
    }
    Ok(settings)
}

/// Decodes the rest of a request whose header is already read: the path, the
/// settings and the body. The magic number is checked first; on a mismatch
/// nothing more is read.
pub fn decode_request(header: &Header, stream: &mut ByteSource) -> (r: Result<
    DecodedRequest,
    DecodeError,
>)
    requires
        old(stream).wf(),
    ensures
        final(stream).wf(),
        final(stream).bytes() == old(stream).bytes(),
        request_spec(*header, old(stream).bytes(), old(stream).pos()) matches Ok(m) ==> r is Ok
            && r->Ok_0@ == m && final(stream).pos() == old(stream).bytes().len(),
        request_spec(*header, old(stream).bytes(), old(stream).pos()) matches Err(e) ==> r == Err::<
            DecodedRequest,
            DecodeError,
        >(e),
        r is Ok ==> (r->Ok_0.path@.len() == 0 <==> be_u32_at(old(stream).bytes(), old(stream).pos())
            == 0),
        header.magic_number != MAGIC ==> final(stream).pos() == old(stream).pos(),
{
    if !has_valid_magic(header) {
        return Err(DecodeError::InvalidMagic);
    }
    let path_length = match stream.read_u32() {
        Ok(n) => n,
        Err(e) => return Err(e),
    };
    let buff = match stream.read_exact(path_length as usize) {
        Ok(b) => b,
        Err(e) => return Err(e),
    };
    let path = decode_lossy(&buff);
    let settings_count = match stream.read_u16() {
        Ok(n) => n,
        Err(e) => return Err(e),
    };
    let settings = match decode_settings(stream, settings_count, is_utf16(header.flags)) {
        Ok(v) => v,
        Err(e) => return Err(e),
    };
    let body = stream.read_to_end();
    Ok(DecodedRequest { header: *header, path, settings, body })
}

/// A whole request from `pos` on: the eight header bytes, then the rest.
pub open spec fn process_spec(s: Seq<u8>, pos: int) -> Result<RequestModel, DecodeError> {
    if pos + 8 > s.len() {
        Err(DecodeError::TruncatedStream)
    } else {
        match header_spec(s.subrange(pos, pos + 8)) {
            None => Err(DecodeError::InvalidAction),
            Some(h) => request_spec(h, s, pos + 8),
        }
    }
}

/// Reads and decodes one whole request: header, path, settings and body.
pub fn process_request(stream: &mut ByteSource) -> (r: Result<DecodedRequest, DecodeError>)
    requires
        old(stream).wf(),
    ensures
        final(stream).wf(),
        final(stream).bytes() == old(stream).bytes(),
        process_spec(old(stream).bytes(), old(stream).pos()) matches Ok(m) ==> r is Ok && r->Ok_0@
            == m && final(stream).pos() == old(stream).bytes().len(),
        process_spec(old(stream).bytes(), old(stream).pos()) matches Err(e) ==> r == Err::<
            DecodedRequest,
            DecodeError,
        >(e),
{
    let v = match stream.read_exact(8) {
        Ok(v) => v,
        Err(e) => return Err(e),
    };
    let bytes: [u8; 8] = [v[0], v[1], v[2], v[3], v[4], v[5], v[6], v[7]];
    assert(bytes@ =~= v@);
    let header = match decode_header(&bytes) {
        Ok(h) => h,
        Err(e) => return Err(e),
    };
    decode_request(&header, stream)
}

/// With the right magic number, a declared settings count of zero and nothing
/// after it, a request has no settings and an empty body, and its path is
/// what its path bytes read as.
pub proof fn lemma_no_settings_empty_body(h: Header, path: Seq<u8>)
    requires
        h.magic_number == MAGIC,
        path.len() <= u32::MAX,
    ensures
        request_spec(h, u32_be_bytes(path.len() as u32) + path + seq![0u8, 0u8], 0) matches Ok(m)
            && m.header == h && m.path == utf8_lossy_of(path) && m.settings.len() == 0
            && m.body.len() == 0,
{
    let s = u32_be_bytes(path.len() as u32) + path + seq![0u8, 0u8];
    lemma_u32_be_bytes(path.len() as u32);
    assert(be_u32_at(s, 0) == be_u32_at(u32_be_bytes(path.len() as u32), 0));
    let p = 4 + path.len();
    assert(s.subrange(4, p as int) =~= path);
    assert(be_u16_at(s, p as int) == 0);
}

/// A custom entry is skipped whole: declared with the length of the payload
/// that follows it, it ends right where that payload ends, whatever stands
/// before or after it.
pub proof fn lemma_custom_skip(before: Seq<u8>, payload: Seq<u8>, after: Seq<u8>, utf16: bool)
    requires
        payload.len() <= u32::MAX,
    ensures
        ({
            let s = before + seq![0xFFu8] + u32_be_bytes(payload.len() as u32) + payload + after;
            let end = before.len() + 5 + payload.len();
            &&& entry_spec(s, before.len() as int, utf16) == Ok::<(EntryModel, int), DecodeError>(
                (EntryModel::Custom(payload.len() as u32), end as int),
            )
            &&& s.subrange(end as int, s.len() as int) == after
        }),
{
    let e = u32_be_bytes(payload.len() as u32);
    let s = before + seq![0xFFu8] + e + payload + after;
    let b = before.len() as int;
    let end = before.len() + 5 + payload.len();
    lemma_u32_be_bytes(payload.len() as u32);
    assert(s[b] == 0xFFu8);
    assert(s[b + 1] == e[0] && s[b + 2] == e[1] && s[b + 3] == e[2] && s[b + 4] == e[3]);
    assert(be_u32_at(s, b + 1) == payload.len());
    assert(s.subrange(end as int, s.len() as int) =~= after);
}

/// A tag byte outside the recognised set reads nothing more and does not stop
/// decoding: the next entry starts at the very next byte.
pub proof fn lemma_unknown_tag(s: Seq<u8>, pos: int, n: nat, utf16: bool)
    requires
        entries_spec(s, pos, n, utf16) is Ok,
        0 <= entries_spec(s, pos, n, utf16)->Ok_0.1 < s.len(),
        tag_spec(s[entries_spec(s, pos, n, utf16)->Ok_0.1]) is None,
    ensures
        ({
            let (es, p) = entries_spec(s, pos, n, utf16)->Ok_0;
            entries_spec(s, pos, n + 1, utf16) == Ok::<(Seq<EntryModel>, int), DecodeError>(
                (es.push(EntryModel::Unknown(s[p])), p + 1),
            )
        }),
{
}

/// A declared path length beyond the bytes that remain fails the request with
/// `TruncatedStream`.
pub proof fn lemma_path_too_long(h: Header, s: Seq<u8>, pos: int)
    requires
        h.magic_number == MAGIC,
        pos + 4 <= s.len(),
        pos + 4 + be_u32_at(s, pos) > s.len(),
    ensures
        request_spec(h, s, pos) == Err::<RequestModel, DecodeError>(DecodeError::TruncatedStream),
{
}

/// A declared custom length beyond the bytes that remain fails the entry, and
/// so every longer run of entries, with `TruncatedStream`.
pub proof fn lemma_custom_too_long(s: Seq<u8>, pos: int, n: nat, m: nat, utf16: bool)
    requires
        n < m,
        entries_spec(s, pos, n, utf16) is Ok,
        ({
            let p = entries_spec(s, pos, n, utf16)->Ok_0.1;
            &&& 0 <= p
            &&& p + 5 <= s.len()
            &&& s[p] == 0xFF
            &&& p + 5 + be_u32_at(s, p + 1) > s.len()
        }),
    ensures
        entries_spec(s, pos, m, utf16) == Err::<(Seq<EntryModel>, int), DecodeError>(
            DecodeError::TruncatedStream,
        ),
{
    lemma_entries_err(s, pos, n + 1, m, utf16);
}

/// Header bytes that name a known action but carry another magic number fail
/// the request with `InvalidMagic`, whatever follows them.
pub proof fn lemma_bad_magic(s: Seq<u8>, pos: int)
    requires
        0 <= pos,
        pos + 8 <= s.len(),
        header_spec(s.subrange(pos, pos + 8)) is Some,
        header_spec(s.subrange(pos, pos + 8))->Some_0.magic_number != MAGIC,
    ensures
        process_spec(s, pos) == Err::<RequestModel, DecodeError>(DecodeError::InvalidMagic),
{
}

} // verus!
