//! Raw recordings and the single-member ZIP container that may wrap them.
use vstd::prelude::*;
use crate::bytes::{le16, read_u16_le};

verus! {

/// Width of the fixed part of a ZIP local file header.
pub const ZIP_HEADER_SIZE: usize = 30;

/// What flate2's raw DEFLATE decoder yields for a byte sequence read to its
/// end, or `None` where it reports an error.
pub uninterp spec fn inflate_of(b: Seq<u8>) -> Option<Seq<u8>>;

/// Relies on `flate2::read::DeflateDecoder` read to its end: the bytes that the
/// raw DEFLATE stream decodes to, or `None` where the decoder reports an error.
#[verifier::external_body]
fn inflate(compressed: &[u8]) -> (r: Option<Vec<u8>>)
    ensures
        r is Some <==> inflate_of(compressed@) is Some,
        r matches Some(v) ==> inflate_of(compressed@) == Some(v@),
{
    let mut decoder = flate2::read::DeflateDecoder::new(compressed);
    let mut out: Vec<u8> = Vec::new();
    match std::io::Read::read_to_end(&mut decoder, &mut out) {
        Ok(_) => Some(out),
        Err(_) => None,
    }
}

/// The file starts with the ZIP local-file-header magic `PK`.
pub open spec fn is_zip(b: Seq<u8>) -> bool {
    b.len() >= 2 && b[0] == 0x50 && b[1] == 0x4B
}

/// Where the compressed member starts: after the fixed header, the file name
/// and the extra field, whose lengths stand at offsets 26 and 28.
pub open spec fn zip_payload_start(b: Seq<u8>) -> int {
    ZIP_HEADER_SIZE + le16(b, 26) + le16(b, 28)
}

/// The raw recording that a file holds: the file itself, or the inflated
/// member of its ZIP container; `None` for a file under four bytes, a
/// container too short to hold its header or member, or a member that does
/// not inflate.
pub open spec fn unwrapped(b: Seq<u8>) -> Option<Seq<u8>> {
    if b.len() < 4 {
        None
    } else if is_zip(b) {
        if b.len() < ZIP_HEADER_SIZE || zip_payload_start(b) >= b.len() {
            None
        } else {
            inflate_of(b.subrange(zip_payload_start(b), b.len() as int))
        }
    } else {
        Some(b)
    }
}

pub fn is_zip_container(file: &[u8]) -> (r: bool)
    ensures
        r == is_zip(file@),
{
    file.len() >= 2 && file[0] == 0x50 && file[1] == 0x4B
}

/// Offset of the compressed member of a ZIP container; `None` when the header
/// is short or the member would start at or past the end.
pub fn zip_payload_offset(file: &[u8]) -> (r: Option<usize>)
    ensures
        r is Some <==> (file@.len() >= ZIP_HEADER_SIZE && zip_payload_start(file@) < file@.len()),
        r matches Some(p) ==> p == zip_payload_start(file@),
{
    if file.len() < ZIP_HEADER_SIZE {
        return None;
    }
    let name_len = read_u16_le(file, 26).unwrap() as usize;
    let extra_len = read_u16_le(file, 28).unwrap() as usize;
    let pos = ZIP_HEADER_SIZE + name_len + extra_len;
    if pos >= file.len() {
        None
    } else {
        Some(pos)
    }
}

/// Inflates the member of a ZIP container.
pub fn inflate_zip_member(file: &[u8]) -> (r: Option<Vec<u8>>)
    requires
        is_zip(file@),
        file@.len() >= 4,
    ensures
        r is Some <==> unwrapped(file@) is Some,
        r matches Some(v) ==> unwrapped(file@) == Some(v@),
{
    match zip_payload_offset(file) {
        Some(pos) => {
            let member = vstd::slice::slice_subrange(file, pos, file.len());
            inflate(member)
        },
        None => None,
    }
}

/// The raw recording in a file's bytes, copied or inflated.
pub fn unwrap_container(file: &[u8]) -> (r: Option<Vec<u8>>)
    ensures
        r is Some <==> unwrapped(file@) is Some,
        r matches Some(v) ==> unwrapped(file@) == Some(v@),
{
    if file.len() < 4 {
        None
    } else if is_zip_container(file) {
        inflate_zip_member(file)
    } else {
        Some(vstd::slice::slice_to_vec(file))
    }
}

} // verus!
