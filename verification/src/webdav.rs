//! What the WebDAV file store client decides and computes: whether it is
//! configured, its addresses, its credentials header, and the metadata file
//! stored beside each archive.

use base64::Engine;
use md5::Digest;
use std::io::Write;
use vstd::prelude::*;

use crate::formatters::{concat2, concat3};
use crate::text::{decimal, decimal_string, owned, push_str};

verus! {

broadcast use vstd::std_specs::vec::group_vec_axioms;

/// What an upload stored: the MD5 of the file, and its modification time
/// in milliseconds.
#[derive(Debug)]
pub struct UploadResult {
    pub md5: String,
    pub mtime: u64,
}

/// The character of the standard Base64 alphabet for `n` (below 64).
pub open spec fn base64_char(n: int) -> char {
    if n < 26 {
        ((65 + n) as u8) as char
    } else if n < 52 {
        ((97 + n - 26) as u8) as char
    } else if n < 62 {
        ((48 + n - 52) as u8) as char
    } else if n == 62 {
        '+'
    } else {
        '/'
    }
}

/// The standard Base64 encoding, with padding, of some bytes: each group of
/// three bytes becomes four characters of six bits each; a last group of one
/// or two bytes is padded with `=`.
pub open spec fn spec_base64(bytes: Seq<u8>) -> Seq<char>
    decreases bytes.len(),
{
    if bytes.len() == 0 {
        Seq::<char>::empty()
    } else if bytes.len() == 1 {
        let b0 = bytes[0] as int;
        seq![base64_char(b0 / 4), base64_char((b0 % 4) * 16), '=', '=']
    } else if bytes.len() == 2 {
        let b0 = bytes[0] as int;
        let b1 = bytes[1] as int;
        seq![base64_char(b0 / 4), base64_char((b0 % 4) * 16 + b1 / 16), base64_char((b1 % 16) * 4), '=']
    } else {
        let b0 = bytes[0] as int;
        let b1 = bytes[1] as int;
        let b2 = bytes[2] as int;
        seq![
            base64_char(b0 / 4),
            base64_char((b0 % 4) * 16 + b1 / 16),
            base64_char((b1 % 16) * 4 + b2 / 64),
            base64_char(b2 % 64),
        ] + spec_base64(bytes.skip(3))
    }
}

/// `STANDARD.encode` of base64: the standard Base64 text of `bytes`, with
/// padding (`spec_base64`). The crate computes the output length with checked
/// arithmetic and panics when it overflows, which the bound on the input
/// rules out.
#[verifier::external_body]
fn base64_standard(bytes: &[u8]) -> (r: String)
    requires
        bytes@.len() <= usize::MAX / 2,
    ensures
        r@ == spec_base64(bytes@),
{
    base64::engine::general_purpose::STANDARD.encode(bytes)
}

/// The MD5 digest of some bytes (the result of `Md5::digest`).
pub uninterp spec fn spec_md5(bytes: Seq<u8>) -> Seq<u8>;

/// `Digest::digest` of md-5: the 16-byte MD5 digest of `data`, named by
/// `spec_md5`.
#[verifier::external_body]
fn md5_digest(data: &[u8]) -> (r: Vec<u8>)
    ensures
        r@ == spec_md5(data@),
        r@.len() == 16,
{
    md5::Md5::digest(data).to_vec()
}

/// What the zip crate's writer gives for one deflated entry named `filename`
/// holding `data`: the archive when writing succeeds, `None` when it fails.
pub uninterp spec fn spec_zip_archive(filename: Seq<char>, data: Seq<u8>) -> Option<Seq<u8>>;

/// The largest entry that is owed an archive: well below the 4 GiB limit of
/// a ZIP entry without the large-file option, so that the deflated bytes stay
/// below it too.
pub const ZIP_SMALL_LIMIT: u64 = 0xF000_0000;

/// `ZipWriter` of zip: starts one deflated entry named `filename`, writes
/// `data` into it and finishes the archive in memory. The result is the one
/// named by `spec_zip_archive` (the crate is built without its clock
/// feature, so the entry's timestamp is the fixed default and the outcome
/// depends on the arguments alone); the error text is the crate's own.
/// The writer fails only when the entry or its deflated form passes the
/// 4 GiB limit of an entry without the large-file option (the in-memory
/// buffer takes every write), so an entry of at most `ZIP_SMALL_LIMIT` bytes
/// gets its archive: deflate adds at most a few bytes per 64 KiB block.
/// Writing the local header unwraps the name's length as a 16-bit number,
/// so a name above 65535 bytes panics; `requires` leaves it out.
#[verifier::external_body]
fn zip_deflated(filename: &str, data: &[u8]) -> (r: Result<Vec<u8>, String>)
    requires
        crate::formatters::utf8_len(filename@) <= 65535,
    ensures
        r is Ok <==> spec_zip_archive(filename@, data@) is Some,
        r matches Ok(z) ==> spec_zip_archive(filename@, data@) == Some(z@),
        data@.len() <= ZIP_SMALL_LIMIT ==> r is Ok,
{
    let mut buf: Vec<u8> = Vec::new();
    let mut zip = zip::ZipWriter::new(std::io::Cursor::new(&mut buf));
    let options = zip::write::SimpleFileOptions::default().compression_method(zip::CompressionMethod::Deflated);
    if let Err(e) = zip.start_file(filename, options) {
        return Err(e.to_string());
    }
    if let Err(e) = zip.write_all(data) {
        return Err(e.to_string());
    }
    if let Err(e) = zip.finish() {
        return Err(e.to_string());
    }
    Ok(buf)
}

/// The archive uploaded for an attachment: one deflated entry named
/// `filename` holding `data` (see `spec_zip_archive`), or the archiver's
/// error text. An entry of at most `ZIP_SMALL_LIMIT` bytes always gets its
/// archive. The name must fit the 16-bit length field of a ZIP header.
pub fn create_zip(filename: &str, data: &[u8]) -> (r: Result<Vec<u8>, String>)
    requires
        crate::formatters::utf8_len(filename@) <= 65535,
    ensures
        r is Ok <==> spec_zip_archive(filename@, data@) is Some,
        r matches Ok(z) ==> spec_zip_archive(filename@, data@) == Some(z@),
        data@.len() <= ZIP_SMALL_LIMIT ==> r is Ok,
{
    zip_deflated(filename, data)
}

/// The lower-case hexadecimal digit of `d` (below 16).
pub open spec fn hex_digit(d: u8) -> char {
    if d < 10 {
        ((48 + d) as u8) as char
    } else {
        ((87 + d) as u8) as char
    }
}

/// Bytes as lower-case hexadecimal, two digits each.
pub open spec fn hex_lower(bytes: Seq<u8>) -> Seq<char>
    decreases bytes.len(),
{
    if bytes.len() == 0 {
        Seq::<char>::empty()
    } else {
        hex_lower(bytes.drop_last()) + seq![hex_digit(bytes.last() / 16), hex_digit(bytes.last() % 16)]
    }
}

fn hex_digit_exec(d: u8) -> (c: char)
    requires
        d < 16,
    ensures
        c == hex_digit(d),
{
    if d < 10 {
        (48 + d) as char
    } else {
        (87 + d) as char
    }
}

/// The MD5 of `data` as 32 lower-case hexadecimal digits.
pub fn md5_hex(data: &[u8]) -> (r: String)
    ensures
        r@ == hex_lower(spec_md5(data@)),
{
    let digest = md5_digest(data);
    let mut out = String::new();
    let mut i: usize = 0;
    while i < digest.len()
        invariant
            i <= digest@.len(),
            out@ == hex_lower(digest@.take(i as int)),
        decreases digest.len() - i,
    {
        assert(digest@.take(i + 1).drop_last() =~= digest@.take(i as int));
        let b = digest[i];
        crate::text::push_char(&mut out, hex_digit_exec(b / 16));
        crate::text::push_char(&mut out, hex_digit_exec(b % 16));
        i = i + 1;
    }
    assert(digest@.take(digest@.len() as int) =~= digest@);
    out
}

/// The settings of a file store, when all three are given and none is empty.
pub open spec fn spec_webdav_settings(url: Option<Seq<char>>, user: Option<Seq<char>>, pass: Option<Seq<char>>) -> bool {
    url matches Some(u) && user matches Some(n) && pass matches Some(p) && u.len() > 0 && n.len() > 0 && p.len() > 0
}

/// Whether a file store is configured (see `spec_webdav_settings`).
pub fn webdav_settings_complete(url: Option<&str>, user: Option<&str>, pass: Option<&str>) -> (r: bool)
    ensures
        r == spec_webdav_settings(
            crate::library::opt_slice_view(url),
            crate::library::opt_slice_view(user),
            crate::library::opt_slice_view(pass),
        ),
{
    match (url, user, pass) {
        (Some(u), Some(n), Some(p)) => !u.is_empty() && !n.is_empty() && !p.is_empty(),
        _ => false,
    }
}

/// The base address of the store: its URL without trailing slashes.
pub fn store_base(url: &str) -> (r: String)
    ensures
        r@ == crate::client::trim_slashes(url@),
{
    crate::client::trim_trailing_slashes(url)
}

/// The Basic authorization header for a user and a password.
pub open spec fn spec_auth_header(user: Seq<char>, pass: Seq<char>) -> Seq<char> {
    "Basic "@ + spec_base64(vstd::utf8::encode_utf8(user + ":"@ + pass))
}

/// The Basic authorization header for a user and a password (see
/// `spec_auth_header`); the text of the credentials must fit the encoder's
/// size computation.
pub fn auth_header(user: &str, pass: &str) -> (r: String)
    requires
        vstd::utf8::encode_utf8(user@ + ":"@ + pass@).len() <= usize::MAX / 2,
    ensures
        r@ == spec_auth_header(user@, pass@),
{
    let credentials = concat3(user, ":", pass);
    let encoded = base64_standard(credentials.as_str().as_bytes());
    concat2("Basic ", encoded.as_str())
}

/// The address of the archive (`ext` "zip") or metadata file (`ext` "prop")
/// of an attachment.
pub fn file_url(base: &str, key: &str, ext: &str) -> (r: String)
    ensures
        r@ == base@ + "/"@ + key@ + "."@ + ext@,
{
    let mut out = concat3(base, "/", key);
    push_str(&mut out, ".");
    push_str(&mut out, ext);
    out
}

/// The metadata file stored beside an archive: its modification time and hash.
pub open spec fn spec_prop_xml(mtime: nat, md5: Seq<char>) -> Seq<char> {
    "<properties version=\"1\">\n  <mtime>"@ + decimal(mtime) + "</mtime>\n  <hash>"@ + md5 + "</hash>\n</properties>"@
}

/// The metadata file stored beside an archive (see `spec_prop_xml`).
pub fn prop_xml(mtime: u64, md5: &str) -> (r: String)
    ensures
        r@ == spec_prop_xml(mtime as nat, md5@),
{
    let mut out = owned("<properties version=\"1\">\n  <mtime>");
    push_str(&mut out, decimal_string(mtime).as_str());
    push_str(&mut out, "</mtime>\n  <hash>");
    push_str(&mut out, md5);
    push_str(&mut out, "</hash>\n</properties>");
    out
}

/// Whether a PUT was accepted: a success status, or 201 or 204.
pub fn put_accepted(success: bool, status: u16) -> (r: bool)
    ensures
        r == (success || status == 201 || status == 204),
{
    success || status == 201 || status == 204
}

} // verus!
