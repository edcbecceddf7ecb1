//! File offers and file bodies: the payloads that describe a file, the checks a
//! receiver makes, and the names it stores files under.
use vstd::prelude::*;
use vstd::utf8::{decode_utf8, encode_utf8, encode_utf8_decode_utf8, encode_utf8_valid_utf8, valid_utf8};

use crate::bytes::{
    be16, be64, copy_range, from_be16, from_be64, lemma_be16_roundtrip, lemma_be64_roundtrip,
    push_be16, push_be64, read_be16, read_be64,
};
use crate::protocol::{FILE_BEGIN, FILE_END, OFFER_ACCEPT};
use crate::text::{ascii_chars, decimal_bytes, decimal_string, string_from_utf8};

verus! {

/// Why a file offer or a file body was refused.
#[derive(Debug, Clone, Copy, PartialEq, Eq, Structural)]
pub enum TransferError {
    /// Wrong message type, or a payload shorter than a size and a name length.
    InvalidData,
    /// The name length disagrees with the payload.
    InvalidLength,
    /// The name is not UTF-8.
    InvalidUtf8,
    /// The file begun is not the one that was offered.
    OfferMismatch,
    /// The name would leave the download directory.
    DirectoryTraversal,
    /// The receiver declined the offer.
    OfferRejected,
}

/// The payload that describes a file (in an offer and at the start of its body): its
/// size as a big-endian `u64`, its name's length as a big-endian `u16`, its name.
pub open spec fn spec_file_header(file_size: u64, name: Seq<u8>) -> Seq<u8> {
    be64(file_size) + be16(name.len() as u16) + name
}

/// What a file-describing payload holds: the size and the name.
pub open spec fn spec_parse_file_header(p: Seq<u8>) -> Result<(u64, Seq<char>), TransferError> {
    if p.len() < 10 {
        Err(TransferError::InvalidData)
    } else if p.len() != 10 + from_be16(p[8], p[9]) {
        Err(TransferError::InvalidLength)
    } else if !valid_utf8(p.subrange(10, p.len() as int)) {
        Err(TransferError::InvalidUtf8)
    } else {
        Ok((from_be64(p.subrange(0, 8)), decode_utf8(p.subrange(10, p.len() as int))))
    }
}

/// The view of a parsed file description.
pub open spec fn file_header_view(r: Result<(u64, String), TransferError>) -> Result<
    (u64, Seq<char>),
    TransferError,
> {
    match r {
        Ok((n, s)) => Ok((n, s@)),
        Err(e) => Err(e),
    }
}

/// Builds the payload that describes a file. A name longer than `u16::MAX` bytes
/// gets its length truncated, as the wire format cannot say more.
pub fn file_header_payload(file_size: u64, file_name: &str) -> (payload: Vec<u8>)
    ensures
        payload@ == spec_file_header(file_size, encode_utf8(file_name@)),
{
    let name = file_name.as_bytes();
    let mut payload: Vec<u8> = Vec::new();
    push_be64(&mut payload, file_size);
    push_be16(&mut payload, name.len() as u16);
    payload.extend_from_slice(name);
    assert(payload@ =~= spec_file_header(file_size, encode_utf8(file_name@)));
    payload
}

/// Parses a payload that describes a file.
pub fn parse_file_header(payload: &[u8]) -> (res: Result<(u64, String), TransferError>)
    ensures
        file_header_view(res) == spec_parse_file_header(payload@),
{
    let len = payload.len();
    if len < 10 {
        return Err(TransferError::InvalidData);
    }
    let file_size = read_be64(payload, 0);
    let name_len = read_be16(payload, 8) as usize;
    if len != 10 + name_len {
        return Err(TransferError::InvalidLength);
    }
    let name_bytes = copy_range(payload, 10, len);
    match string_from_utf8(name_bytes) {
        Some(name) => Ok((file_size, name)),
        None => Err(TransferError::InvalidUtf8),
    }
}

/// Parsing the description of a file gives back its size and name, for names of at
/// most `u16::MAX` bytes.
pub proof fn lemma_file_header_roundtrip(file_size: u64, name: Seq<char>)
    requires
        encode_utf8(name).len() <= u16::MAX,
    ensures
        spec_parse_file_header(spec_file_header(file_size, encode_utf8(name))) == Ok::<
            (u64, Seq<char>),
            TransferError,
        >((file_size, name)),
{
    let bytes = encode_utf8(name);
    let p = spec_file_header(file_size, bytes);
    lemma_be64_roundtrip(file_size);
    lemma_be16_roundtrip(bytes.len() as u16);
    assert(p.subrange(0, 8) =~= be64(file_size));
    assert(p[8] == be16(bytes.len() as u16)[0]);
    assert(p[9] == be16(bytes.len() as u16)[1]);
    assert(p.subrange(10, p.len() as int) =~= bytes);
    encode_utf8_valid_utf8(name);
    encode_utf8_decode_utf8(name);
}

/// The payload of an offer's acceptance: nothing for a fresh transfer, else the
/// offset to resume at as a big-endian `u64`.
pub open spec fn spec_accept_payload(resume_offset: u64) -> Seq<u8> {
    if resume_offset == 0 {
        Seq::empty()
    } else {
        be64(resume_offset)
    }
}

/// Builds the payload of an offer's acceptance.
pub fn offer_accept_payload(resume_offset: u64) -> (payload: Vec<u8>)
    ensures
        payload@ == spec_accept_payload(resume_offset),
{
    let mut payload: Vec<u8> = Vec::new();
    if resume_offset > 0 {
        push_be64(&mut payload, resume_offset);
    }
    assert(payload@ =~= spec_accept_payload(resume_offset));
    payload
}

/// The sender's reading of the reply to its offer: an acceptance gives the offset to
/// resume at (an 8-byte payload) or 0; anything else is a rejection.
pub open spec fn spec_offer_reply(msg_type: u8, payload: Seq<u8>) -> Result<u64, TransferError> {
    if msg_type != OFFER_ACCEPT {
        Err(TransferError::OfferRejected)
    } else if payload.len() == 8 {
        Ok(from_be64(payload))
    } else {
        Ok(0)
    }
}

/// Reads the reply to an offer.
pub fn parse_offer_reply(msg_type: u8, payload: &[u8]) -> (res: Result<u64, TransferError>)
    ensures
        res == spec_offer_reply(msg_type, payload@),
{
    if msg_type != OFFER_ACCEPT {
        return Err(TransferError::OfferRejected);
    }
    if payload.len() == 8 {
        assert(payload@.subrange(0, 8) =~= payload@);
        Ok(read_be64(payload, 0))
    } else {
        Ok(0)
    }
}

/// The sender reads back the resume offset the receiver sent.
pub proof fn lemma_accept_roundtrip(resume_offset: u64)
    ensures
        spec_offer_reply(OFFER_ACCEPT, spec_accept_payload(resume_offset)) == Ok::<
            u64,
            TransferError,
        >(resume_offset),
{
    lemma_be64_roundtrip(resume_offset);
}

/// What the check of the message that starts a file body gives: the file's name
/// when it is the offered file.
pub open spec fn spec_check_file_begin(
    msg_type: u8,
    payload: Seq<u8>,
    expected_size: u64,
    expected_name: Seq<char>,
) -> Result<Seq<char>, TransferError> {
    if msg_type != FILE_BEGIN {
        Err(TransferError::InvalidData)
    } else {
        match spec_parse_file_header(payload) {
            Err(e) => Err(e),
            Ok((size, name)) => if size == expected_size && name == expected_name {
                Ok(name)
            } else {
                Err(TransferError::OfferMismatch)
            },
        }
    }
}

/// Checks the message that starts a file body against the accepted offer, and
/// returns the file's name.
pub fn check_file_begin(
    msg_type: u8,
    payload: &[u8],
    expected_size: u64,
    expected_name: &str,
) -> (res: Result<String, TransferError>)
    ensures
        match res {
            Ok(s) => spec_check_file_begin(msg_type, payload@, expected_size, expected_name@) == Ok::<
                Seq<char>,
                TransferError,
            >(s@),
            Err(e) => spec_check_file_begin(msg_type, payload@, expected_size, expected_name@)
                == Err::<Seq<char>, TransferError>(e),
        },
{
    if msg_type != FILE_BEGIN {
        return Err(TransferError::InvalidData);
    }
    let (file_size, file_name) = parse_file_header(payload)?;
    let expected = expected_name.to_owned();
    if file_size != expected_size || file_name != expected {
        return Err(TransferError::OfferMismatch);
    }
    Ok(file_name)
}

/// The UTF-8 bytes of `s` hold two consecutive dots.
pub open spec fn has_dot_dot(s: Seq<char>) -> bool {
    exists|i: int|
        0 <= i < encode_utf8(s).len() - 1 && #[trigger] encode_utf8(s)[i] == 0x2eu8 && encode_utf8(
            s,
        )[i + 1] == 0x2eu8
}

/// Whether `name` holds "..".
pub fn contains_dot_dot(name: &str) -> (b: bool)
    ensures
        b == has_dot_dot(name@),
{
    let bytes = name.as_bytes();
    let n = bytes.len();
    if n < 2 {
        return false;
    }
    let mut i: usize = 0;
    while i < n - 1
        invariant
            n == bytes@.len(),
            n >= 2,
            i <= n - 1,
            bytes@ == encode_utf8(name@),
            forall|j: int| 0 <= j < i ==> !(#[trigger] bytes@[j] == 0x2eu8 && bytes@[j + 1] == 0x2eu8),
        decreases bytes@.len() - i,
    {
        if bytes[i] == 0x2eu8 && bytes[i + 1] == 0x2eu8 {
            return true;
        }
        i = i + 1;
    }
    false
}

/// A received file's name is accepted when it is a single path component, not an
/// absolute path, and holds no "..".
pub fn file_name_allowed(component_count: usize, is_absolute: bool, name: &str) -> (ok: bool)
    ensures
        ok == (component_count == 1 && !is_absolute && !has_dot_dot(name@)),
{
    component_count == 1 && !is_absolute && !contains_dot_dot(name)
}

/// A name that every platform's path rules read as one plain file name: not empty,
/// neither "." nor "..", and free of the separators '/' and '\\' and of the ':' of a
/// drive prefix.
pub open spec fn plain_name(s: Seq<char>) -> bool {
    &&& s.len() > 0
    &&& s != seq!['.']
    &&& s != seq!['.', '.']
    &&& forall|i: int| 0 <= i < s.len() ==> s[i] != '/' && s[i] != '\\' && s[i] != ':'
}

/// A name whose '/' every platform's path rules take as a separator: it holds no
/// '\\' and does not start with two '/', the only ways to a Windows prefix that
/// could swallow a '/'.
pub open spec fn slashes_separate(s: Seq<char>) -> bool {
    &&& forall|i: int| 0 <= i < s.len() ==> s[i] != '\\'
    &&& !(s.len() >= 2 && s[0] == '/' && s[1] == '/')
}

/// Some '/' stands between two characters, neither of which is '/' or '.': it parts
/// two components.
pub open spec fn inner_slash(s: Seq<char>) -> bool {
    exists|i: int|
        0 < i < s.len() - 1 && #[trigger] s[i] == '/' && s[i - 1] != '/' && s[i - 1] != '.'
            && s[i + 1] != '/' && s[i + 1] != '.'
}

/// The name starts at the root: a '/' followed by a character that is neither '/' nor
/// '.'.
pub open spec fn rooted(s: Seq<char>) -> bool {
    s.len() >= 2 && s[0] == '/' && s[1] != '/' && s[1] != '.'
}

/// A name that splits into more than one component on every platform.
pub open spec fn splits(s: Seq<char>) -> bool {
    slashes_separate(s) && (inner_slash(s) || rooted(s))
}

/// Calls `Path::new(name).components().count()` of std. Claims that a plain name is
/// one component, and that a name that parts at a '/' (std takes '/' as a separator
/// on every platform, and a leading '/' as the root) is more than one; how other names
/// split depends on the platform's path rules.
#[verifier::external_body]
fn path_component_count(name: &str) -> (count: usize)
    ensures
        plain_name(name@) ==> count == 1,
        splits(name@) ==> count >= 2,
{
    std::path::Path::new(name).components().count()
}

/// Calls `Path::new(name).is_absolute()` of std. Claims only that a plain name is not
/// absolute; what else is depends on the platform's path rules.
#[verifier::external_body]
fn path_is_absolute(name: &str) -> (absolute: bool)
    ensures
        plain_name(name@) ==> !absolute,
{
    std::path::Path::new(name).is_absolute()
}

/// Refuses a received file name that could leave the download directory. A name
/// holding "..", or parting at a '/' (such as "a/b" or "/etc/x"), is always refused;
/// a plain name without ".." is always accepted.
pub fn check_file_name(name: &str) -> (res: Result<(), TransferError>)
    ensures
        res is Err ==> res == Err::<(), TransferError>(TransferError::DirectoryTraversal),
        has_dot_dot(name@) ==> res is Err,
        splits(name@) ==> res is Err,
        plain_name(name@) && !has_dot_dot(name@) ==> res is Ok,
{
    let count = path_component_count(name);
    let absolute = path_is_absolute(name);
    if file_name_allowed(count, absolute, name) {
        Ok(())
    } else {
        Err(TransferError::DirectoryTraversal)
    }
}

/// The suffix of a file that is still being received.
pub open spec fn unconfirmed_suffix() -> Seq<char> {
    seq!['.', 'u', 'n', 'c', 'o', 'n', 'f', 'i', 'r', 'm', 'e', 'd']
}

/// The name a file is received under until it is complete.
pub fn unconfirmed_name(file_name: &str) -> (name: String)
    ensures
        name@ == file_name@ + unconfirmed_suffix(),
{
    let mut name = String::from_str(file_name);
    let suffix = ".unconfirmed";
    proof {
        reveal_strlit(".unconfirmed");
    }
    assert(suffix@ =~= unconfirmed_suffix());
    name.append(suffix);
    name
}

/// The name tried when `stem` + extension is taken: "stem (i)" then the extension,
/// with its dot, if there is one.
pub open spec fn spec_numbered_name(stem: Seq<char>, i: u64, ext: Seq<char>) -> Seq<char> {
    stem + seq![' ', '('] + ascii_chars(decimal_bytes(i as nat)) + seq![')'] + if ext.len() == 0 {
        Seq::empty()
    } else {
        seq!['.'] + ext
    }
}

/// Builds the `i`-th alternative name of a file whose name is taken.
pub fn numbered_name(stem: &str, i: u64, ext: &str) -> (name: String)
    ensures
        name@ == spec_numbered_name(stem@, i, ext@),
{
    let mut name = String::from_str(stem);
    let open_paren = " (";
    let close_paren = ")";
    let dot = ".";
    proof {
        reveal_strlit(" (");
        reveal_strlit(")");
        reveal_strlit(".");
    }
    name.append(open_paren);
    let number = decimal_string(i);
    name.append(number.as_str());
    name.append(close_paren);
    if !ext.is_empty() {
        name.append(dot);
        name.append(ext);
    }
    assert(name@ =~= spec_numbered_name(stem@, i, ext@));
    name
}

/// The name the body of an upload is written under while it arrives: the file's
/// partial name when resuming, or when no stale partial lies there; otherwise the
/// fresh name "name (attempt).unconfirmed", so that a stale partial is left as it is.
pub open spec fn spec_partial_name(file_name: Seq<char>, keep_partial: bool, stale_exists: bool, attempt: u64) -> Seq<char> {
    if keep_partial || !stale_exists {
        file_name + unconfirmed_suffix()
    } else {
        spec_numbered_name(file_name, attempt, Seq::empty()) + unconfirmed_suffix()
    }
}

/// Picks the name the body of an upload is written under. When the upload does not
/// resume and a stale partial exists, the name is never the stale partial's, which is
/// left untouched; `attempt` numbers the fresh names tried.
pub fn partial_name(file_name: &str, keep_partial: bool, stale_exists: bool, attempt: u64) -> (name: String)
    ensures
        name@ == spec_partial_name(file_name@, keep_partial, stale_exists, attempt),
        !keep_partial && stale_exists ==> name@ != file_name@ + unconfirmed_suffix(),
{
    if keep_partial || !stale_exists {
        unconfirmed_name(file_name)
    } else {
        let numbered = numbered_name(file_name, attempt, "");
        proof {
            reveal_strlit("");
        }
        let name = unconfirmed_name(numbered.as_str());
        assert(numbered@ =~= spec_numbered_name(file_name@, attempt, Seq::empty()));
        assert(name@.len() > (file_name@ + unconfirmed_suffix()).len());
        name
    }
}

/// How many body bytes are still to come when `existing_length` bytes are on disk.
pub open spec fn spec_bytes_to_receive(file_size: u64, existing_length: u64) -> int {
    if existing_length >= file_size {
        0
    } else {
        file_size - existing_length
    }
}

/// How many body bytes are still to come when `existing_length` bytes are on disk.
pub fn bytes_to_receive(file_size: u64, existing_length: u64) -> (n: u64)
    ensures
        n == spec_bytes_to_receive(file_size, existing_length),
{
    file_size.saturating_sub(existing_length)
}

/// How many bytes the next read takes: what remains, at most a buffer.
pub fn next_read_len(remaining: u64, buf_len: usize) -> (n: usize)
    ensures
        n as int == if remaining < buf_len { remaining as int } else { buf_len as int },
{
    if remaining < buf_len as u64 {
        remaining as usize
    } else {
        buf_len
    }
}

/// How an accepted upload is received.
#[derive(Debug, Clone, Copy, PartialEq, Eq, Structural)]
pub struct UploadPlan {
    /// Whether the partial file, cut to the resume offset when the offer was accepted,
    /// is appended to; otherwise the file is written afresh.
    pub keep_partial: bool,
    /// How many body bytes the sender streams.
    pub to_receive: u64,
}

/// The plan of the upload of an accepted offer: exactly the bytes after the resume
/// offset the sender was told, appended to the partial file only when resuming.
pub fn upload_plan(expected_size: u64, resume: bool, resume_offset: u64) -> (plan: UploadPlan)
    ensures
        plan.keep_partial == (resume && resume_offset > 0),
        plan.to_receive == (if resume {
            spec_bytes_to_receive(expected_size, resume_offset)
        } else {
            expected_size as int
        }),
{
    if resume {
        UploadPlan { keep_partial: resume_offset > 0, to_receive: bytes_to_receive(expected_size, resume_offset) }
    } else {
        UploadPlan { keep_partial: false, to_receive: expected_size }
    }
}

/// A received file is complete when the end message (with an empty payload) comes
/// and the file on disk has the announced size.
pub fn body_complete(msg_type: u8, payload_len: usize, on_disk: u64, file_size: u64) -> (ok: bool)
    ensures
        ok == (msg_type == FILE_END && payload_len == 0 && on_disk == file_size),
{
    msg_type == FILE_END && payload_len == 0 && on_disk == file_size
}

/// The body the sender starts for the offered file passes the receiver's check.
pub proof fn lemma_begin_matches_offer(file_size: u64, name: Seq<char>)
    requires
        encode_utf8(name).len() <= u16::MAX,
    ensures
        spec_check_file_begin(FILE_BEGIN, spec_file_header(file_size, encode_utf8(name)), file_size, name)
            == Ok::<Seq<char>, TransferError>(name),
{
    lemma_file_header_roundtrip(file_size, name);
}

} // verus!
