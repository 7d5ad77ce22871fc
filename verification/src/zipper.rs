//! The in-memory zip writer of the `zip` crate, as the archive builder uses it.
use std::io::Cursor;
use std::io::Write;

use vstd::prelude::*;
use vstd::utf8::encode_utf8;
use zip::result::ZipError;
use zip::write::SimpleFileOptions;
use zip::{CompressionMethod, ZipWriter};

verus! {

/// A zip writer that builds its archive in an in-memory buffer. The
/// functions below hand a writer back only when their call succeeded and drop
/// it otherwise, so a writer in use has only had calls that succeeded: what it
/// has written is exactly the files it holds, and the last of them, if any, is
/// still open for data.
#[verifier::external_body]
pub struct ZipBuffer {
    writer: ZipWriter<Cursor<Vec<u8>>>,
}

/// The error type of the `zip` crate, carried through as is.
#[verifier::external_type_specification]
#[verifier::external_body]
pub struct ExZipError(ZipError);

/// `std::io::Error`, as the zip writer's `Write` impl returns it.
#[verifier::external_type_specification]
#[verifier::external_body]
pub struct ExIoError(std::io::Error);

/// The files that a zip writer holds so far, in order: each with its name,
/// its Unix mode and its data.
pub uninterp spec fn zip_writer_files(w: ZipBuffer) -> Seq<(Seq<char>, u32, Seq<u8>)>;

/// The bytes of the finished archive that stores `files` uncompressed, in order.
/// The crate is built without its `time` feature, so every entry carries the
/// fixed date 1980-01-01 and the bytes depend on `files` alone.
pub uninterp spec fn stored_zip_bytes(files: Seq<(Seq<char>, u32, Seq<u8>)>) -> Seq<u8>;

/// The largest data that one file may hold without the ZIP64 "large file"
/// option: `zip::ZIP64_BYTES_THR`.
pub const ZIP_FILE_LIMIT: u64 = 0xffff_ffff;

/// `files` with `data` appended to the data of the last file.
pub open spec fn data_appended(files: Seq<(Seq<char>, u32, Seq<u8>)>, data: Seq<u8>) -> Seq<
    (Seq<char>, u32, Seq<u8>),
> {
    files.update(files.len() - 1, (files.last().0, files.last().1, files.last().2 + data))
}

/// No file of `files` holds more than `ZIP_FILE_LIMIT` bytes of data.
pub open spec fn files_within_limit(files: Seq<(Seq<char>, u32, Seq<u8>)>) -> bool {
    forall|k: int| 0 <= k < files.len() ==> (#[trigger] files[k]).2.len() <= ZIP_FILE_LIMIT
}

/// `ZipWriter::new` over an empty in-memory buffer: a writer that holds no file.
#[verifier::external_body]
pub(crate) fn new_zip_writer() -> (w: ZipBuffer)
    ensures
        zip_writer_files(w) == Seq::<(Seq<char>, u32, Seq<u8>)>::empty(),
{
    ZipBuffer { writer: ZipWriter::new(Cursor::new(Vec::new())) }
}

/// `ZipWriter::start_file` with stored (uncompressed) data and the Unix mode
/// `unix_mode`. On success the writer holds one more file, named `name` and
/// still empty, and is handed back; on failure it is dropped. The source
/// fails when a file of that name is already held; for a stored file written
/// to memory nothing else on its path fails (past 4 GiB of archive it adds a
/// ZIP64 offset field). It panics on a name longer than 65535 bytes.
#[verifier::external_body]
pub(crate) fn zip_start_stored_file(w: ZipBuffer, name: &str, unix_mode: u32) -> (res: Result<
    ZipBuffer,
    ZipError,
>)
    requires
        encode_utf8(name@).len() <= 0xffff,
    ensures
        res matches Ok(next) ==> zip_writer_files(next) == zip_writer_files(w).push(
            (name@, unix_mode, Seq::empty()),
        ),
        (exists|k: int|
            0 <= k < zip_writer_files(w).len() && #[trigger] zip_writer_files(w)[k].0 == name@)
            <==> res is Err,
{
    let mut w = w;
    let options = SimpleFileOptions::default().compression_method(CompressionMethod::Stored);
    match w.writer.start_file(name, options.unix_permissions(unix_mode)) {
        Ok(()) => Ok(w),
        Err(e) => Err(e),
    }
}

/// `Write::write_all` on a zip writer: on success the data is appended to
/// the file started last, and the writer is handed back; on failure it is
/// dropped. Writing no data succeeds and changes nothing. Data written before
/// any file is started fails, and so does data that takes the open file past
/// `ZIP_FILE_LIMIT` bytes; nothing else fails for a writer in memory.
#[verifier::external_body]
pub(crate) fn zip_write_all(w: ZipBuffer, data: &[u8]) -> (res: Result<ZipBuffer, std::io::Error>)
    ensures
        data@.len() == 0 ==> res is Ok,
        res is Ok && data@.len() > 0 ==> zip_writer_files(w).len() > 0 && zip_writer_files(w).last().2.len() + data@.len() <= ZIP_FILE_LIMIT,
        res matches Ok(next) ==> zip_writer_files(next) == if data@.len() == 0 {
            zip_writer_files(w)
        } else {
            data_appended(zip_writer_files(w), data@)
        },
        zip_writer_files(w).len() > 0 && zip_writer_files(w).last().2.len() + data@.len() <= ZIP_FILE_LIMIT ==> res is Ok,
{
    let mut w = w;
    match w.writer.write_all(data) {
        Ok(()) => Ok(w),
        Err(e) => Err(e),
    }
}

/// `ZipWriter::finish`, then the buffer it wrote to: on success, the bytes
/// of the archive of the files held. When no file is past `ZIP_FILE_LIMIT`
/// the source does not fail for a writer in memory (past 4 GiB of archive it
/// writes a ZIP64 directory end).
#[verifier::external_body]
pub(crate) fn zip_finish(w: ZipBuffer) -> (res: Result<Vec<u8>, ZipError>)
    ensures
        res matches Ok(bytes) ==> bytes@ == stored_zip_bytes(zip_writer_files(w)),
        files_within_limit(zip_writer_files(w)) ==> res is Ok,
{
    w.writer.finish().map(|cursor| cursor.into_inner())
}

} // verus!
