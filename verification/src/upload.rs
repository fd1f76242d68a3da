//! The decisions of a chunked upload: which uploads and chunks are accepted,
//! where chunks and the assembled file go, what is answered, and the
//! SHA3-256 fingerprint of the assembled file.
//!
//! Storing a chunk goes: `check_upload_size`, `check_chunk_size`, create the
//! temporary directory `temp_dir_name(upload_id)`, `check_first_chunk`,
//! write the chunk as `chunk_file_name(chunk_number)`, then count the
//! directory's entries and let `assembly::after_chunk_stored` decide.  While
//! chunks are missing the answer is `waiting_message`; once all are there
//! the file is assembled under `relative_output_path` with the name from
//! `upload_file_name` by an `assembly::Assembly`, its fingerprint goes to
//! `hash_file_name` beside it, and the answer is `completion_message`.

use crate::paths::{stem_and_extension, stem_and_extension_chars};
use crate::ids::{new_uuid_v4, uuid_hyphenated, uuid_to_string, uuid_version};
use crate::text::{chars_of, decimal, push_decimal, push_str, string_from_chars};
use crate::validator::{
    mime_error, dashed_stamp, lemma_stamp_chars, stamp_file_name, stamped_name, too_large_message, utc_now_formatted,
    validate_book_mime, validate_chunk_size, MAX_CHUNK_SIZE, MAX_UPLOAD_SIZE,
};
use sha3::Digest;
use vstd::prelude::*;

verus! {

/// Why a chunk was refused: an HTTP status code and a message.
pub struct UploadFailure {
    pub status: u16,
    pub message: String,
}

/// HTTP 413 Payload Too Large.
pub const STATUS_PAYLOAD_TOO_LARGE: u16 = 413;

/// HTTP 415 Unsupported Media Type.
pub const STATUS_UNSUPPORTED_MEDIA_TYPE: u16 = 415;

/// HTTP 500 Internal Server Error.
pub const STATUS_INTERNAL_SERVER_ERROR: u16 = 500;

/// The size that an upload of `total_chunks` chunks of 2 MiB may reach.
pub open spec fn declared_size(total_chunks: nat) -> nat {
    total_chunks * 2097152
}

/// Refuses an upload whose chunks, at 2 MiB each, could exceed 50 MiB.
pub fn check_upload_size(total_chunks: usize) -> (res: Result<(), UploadFailure>)
    requires
        declared_size(total_chunks as nat) <= u64::MAX,
    ensures
        res is Ok <==> declared_size(total_chunks as nat) <= MAX_UPLOAD_SIZE,
        res matches Err(f) ==> f.status == STATUS_PAYLOAD_TOO_LARGE && f.message@
            == "File exceeds limit"@,
{
    if (total_chunks as u64) * 2 * 1024 * 1024 > MAX_UPLOAD_SIZE {
        let message = string_from_chars(&chars_of("File exceeds limit"));
        Err(UploadFailure { status: STATUS_PAYLOAD_TOO_LARGE, message })
    } else {
        Ok(())
    }
}

/// A fresh random identifier for an upload's chunk directory, hyphenated.
pub fn generate_chunk_dir_id() -> (res: String)
    ensures
        exists|u: u128| uuid_version(u) == 4 && res@ == uuid_hyphenated(u),
{
    let id = new_uuid_v4();
    uuid_to_string(id)
}

/// Refuses a chunk over 2 MiB (`MAX_CHUNK_SIZE`) with 413 and the size
/// message, so that no stored chunk exceeds the limit.
pub fn check_chunk_size(data: &[u8]) -> (res: Result<(), UploadFailure>)
    ensures
        res is Ok <==> data@.len() <= MAX_CHUNK_SIZE,
        res matches Err(f) ==> f.status == STATUS_PAYLOAD_TOO_LARGE && f.message@
            == too_large_message(2),
{
    match validate_chunk_size(data, 2) {
        Ok(()) => Ok(()),
        Err(message) => Err(UploadFailure { status: STATUS_PAYLOAD_TOO_LARGE, message }),
    }
}

/// The directory, under the storage root, that holds an upload's chunks.
pub open spec fn temp_dir_of(upload_id: u128) -> Seq<char> {
    "temp/"@ + uuid_hyphenated(upload_id)
}

/// `temp/{upload id}`.
pub fn temp_dir_name(upload_id: u128) -> (res: String)
    ensures
        res@ == temp_dir_of(upload_id),
{
    let mut out: Vec<char> = Vec::new();
    push_str(&mut out, "temp/");
    let id = uuid_to_string(upload_id);
    push_str(&mut out, id.as_str());
    string_from_chars(&out)
}

/// The first chunk (number 0) must have an allowed content type; its
/// refusal is answered with 415 and the content-type message.
pub fn check_first_chunk(chunk_number: usize, data: &[u8]) -> (res: Result<(), UploadFailure>)
    ensures
        res is Ok <==> (chunk_number != 0 || mime_error(data@) is None),
        res matches Err(f) ==> f.status == STATUS_UNSUPPORTED_MEDIA_TYPE && mime_error(data@)
            == Some(f.message@),
{
    if chunk_number == 0 {
        match validate_book_mime(data) {
            Ok(()) => Ok(()),
            Err(e) => Err(UploadFailure { status: STATUS_UNSUPPORTED_MEDIA_TYPE, message: e }),
        }
    } else {
        Ok(())
    }
}

/// The file name of a chunk in the temporary directory: its number.
pub fn chunk_file_name(chunk_number: usize) -> (res: String)
    ensures
        res@ == decimal(chunk_number as nat),
{
    let mut out: Vec<char> = Vec::new();
    push_decimal(&mut out, chunk_number as u64);
    string_from_chars(&out)
}

/// The answer while chunks are still missing.
pub open spec fn waiting_text(chunk_number: nat) -> Seq<char> {
    "Chunk "@ + decimal(chunk_number) + " stored. Waiting for more..."@
}

/// `Chunk {n} stored. Waiting for more...`.
pub fn waiting_message(chunk_number: usize) -> (res: String)
    ensures
        res@ == waiting_text(chunk_number as nat),
{
    let mut out: Vec<char> = Vec::new();
    push_str(&mut out, "Chunk ");
    push_decimal(&mut out, chunk_number as u64);
    push_str(&mut out, " stored. Waiting for more...");
    string_from_chars(&out)
}

/// The name of the assembled file: the current UTC time
/// (`%Y-%m-%d_%H-%M-%S`), an underscore, and the sanitized file name.
pub fn upload_file_name(file_name: &str) -> (res: String)
    ensures
        exists|ts: Seq<char>| dashed_stamp(ts) && res@ == stamped_name(ts, file_name@),
        !res@.contains('/'),
{
    let ts = utc_now_formatted("%Y-%m-%d_%H-%M-%S");
    proof {
        lemma_stamp_chars(ts@);
    }
    stamp_file_name(ts.as_str(), file_name)
}

/// Where, under the storage root, the assembled file goes.
pub open spec fn output_path_of(output_dir: Option<Seq<char>>, final_name: Seq<char>) -> Seq<char> {
    match output_dir {
        Some(subdir) => "uploads/"@ + subdir + seq!['/'] + final_name,
        None => "uploads/"@ + final_name,
    }
}

/// `uploads/{subdir}/{name}`, or `uploads/{name}` without a subdirectory.
pub fn relative_output_path(output_dir: Option<&str>, final_name: &str) -> (res: String)
    ensures
        res@ == output_path_of(
            match output_dir {
                Some(d) => Some(d@),
                None => None,
            },
            final_name@,
        ),
{
    let mut out: Vec<char> = Vec::new();
    push_str(&mut out, "uploads/");
    match output_dir {
        Some(subdir) => {
            push_str(&mut out, subdir);
            out.push('/');
        },
        None => {},
    }
    push_str(&mut out, final_name);
    string_from_chars(&out)
}

/// The name of the file, beside the assembled one, that holds its
/// fingerprint: the assembled file's stem with the extension `hash`, which
/// is what `Path::with_extension("hash")` gives for a path ending in that
/// one-component name.
pub open spec fn hash_name_of(final_name: Seq<char>) -> Seq<char> {
    stem_and_extension(final_name).0 + ".hash"@
}

/// `{stem}.hash` for the assembled file's name.
pub fn hash_file_name(final_name: &str) -> (res: String)
    ensures
        res@ == hash_name_of(final_name@),
{
    let name = chars_of(final_name);
    let (mut out, _) = stem_and_extension_chars(&name);
    push_str(&mut out, ".hash");
    string_from_chars(&out)
}

/// The answer once the file is assembled.
pub open spec fn completion_text(relative_path: Seq<char>, hash_hex: Seq<char>) -> Seq<char> {
    "File berhasil dibuat: "@ + relative_path + " (Hash: "@ + hash_hex + seq![')']
}

/// `File berhasil dibuat: {path} (Hash: {hash})`.
pub fn completion_message(relative_path: &str, hash_hex: &str) -> (res: String)
    ensures
        res@ == completion_text(relative_path@, hash_hex@),
{
    let mut out: Vec<char> = Vec::new();
    push_str(&mut out, "File berhasil dibuat: ");
    push_str(&mut out, relative_path);
    push_str(&mut out, " (Hash: ");
    push_str(&mut out, hash_hex);
    out.push(')');
    string_from_chars(&out)
}

// ---------------------------------------------------------------------------
// Fingerprint
// ---------------------------------------------------------------------------

/// The SHA3-256 digest of `data`.
pub uninterp spec fn sha3_256_of(data: Seq<u8>) -> Seq<u8>;

/// `Sha3_256::digest`: the SHA3-256 digest of `data`, 32 bytes.
#[verifier::external_body]
fn sha3_digest(data: &[u8]) -> (d: Vec<u8>)
    ensures
        d@ == sha3_256_of(data@),
        d@.len() == 32,
{
    sha3::Sha3_256::digest(data).to_vec()
}

/// The fingerprint of a file assembled from chunks: the bytes of the chunks
/// fed so far, in order.
pub struct ChunkHasher {
    bytes: Vec<u8>,
}

impl ChunkHasher {
    /// The bytes fed so far, in order.
    pub closed spec fn absorbed(&self) -> Seq<u8> {
        self.bytes@
    }
}

/// Two lower-case hexadecimal digits per byte, most significant first.
pub open spec fn hex_lower(data: Seq<u8>) -> Seq<char>
    decreases data.len(),
{
    if data.len() == 0 {
        Seq::empty()
    } else {
        hex_lower(data.drop_last()) + seq![
            crate::ids::hex_digit((data.last() / 16) as nat),
            crate::ids::hex_digit((data.last() % 16) as nat),
        ]
    }
}

/// `hex::encode`: two lower-case hexadecimal digits per byte.
#[verifier::external_body]
fn hex_encode(data: &[u8]) -> (s: String)
    ensures
        s@ == hex_lower(data@),
{
    hex::encode(data)
}

impl ChunkHasher {
    /// A fingerprint that has seen no bytes yet.
    pub fn new() -> (h: ChunkHasher)
        ensures
            h.absorbed() == Seq::<u8>::empty(),
    {
        ChunkHasher { bytes: Vec::new() }
    }

    /// Feeds the next chunk.
    pub fn update(&mut self, data: &[u8])
        ensures
            final(self).absorbed() == old(self).absorbed() + data@,
    {
        let mut i: usize = 0;
        while i < data.len()
            invariant
                i <= data.len(),
                self.bytes@ == old(self).bytes@ + data@.take(i as int),
            decreases data.len() - i,
        {
            self.bytes.push(data[i]);
            i = i + 1;
            assert(self.bytes@ =~= old(self).bytes@ + data@.take(i as int));
        }
        assert(data@.take(i as int) =~= data@);
    }

    /// The lower-case hexadecimal SHA3-256 digest of all the chunks fed, in
    /// the order they were fed.
    pub fn finish_hex(self) -> (s: String)
        ensures
            s@ == hex_lower(sha3_256_of(self.absorbed())),
    {
        let digest = sha3_digest(self.bytes.as_slice());
        hex_encode(digest.as_slice())
    }
}

} // verus!
