//! Archiver: folds an already collected package working tree into a single
//! compressed archive, in memory, under the member-ordering rule the
//! package format demands — the declaration file first and stored without
//! compression, every other file in traversal order with the default
//! compression.
//!
//! The archive writer itself is the zip crate's; this module tracks the
//! member sequence handed to it and proves the plan, while the byte stream
//! the writer emits is taken on trust and exercised by tests that
//! re-extract it.

use vstd::prelude::*;
use vstd::string::StringSliceAdditionalSpecFns;
use vstd::string::StrSliceExecFns;
use std::io::Write;
use crate::opf::mimetype_content;
use crate::paths::{spec_epub_filename, epub_filename};

verus! {

/// Failure while writing the archive.
#[derive(Debug, PartialEq, Eq, Structural, Clone, Copy)]
pub enum ArchiveError {
    Write,
}

/// An archive under construction: zip's writer over an in-memory buffer,
/// opaque to the verifier.
#[verifier::external_body]
pub struct ZipSink {
    inner: zip::ZipWriter<std::io::Cursor<Vec<u8>>>,
}

/// The members written to an archive so far: for each, its name, whether it
/// is stored without compression, and its content.
pub uninterp spec fn zip_members(z: ZipSink) -> Seq<(Seq<char>, bool, Seq<u8>)>;

impl View for ZipSink {
    type V = Seq<(Seq<char>, bool, Seq<u8>)>;

    open spec fn view(&self) -> Seq<(Seq<char>, bool, Seq<u8>)> {
        zip_members(*self)
    }
}

/// Relies on zip's `ZipWriter::new`: a fresh writer over an empty buffer
/// holds no members.
#[verifier::external_body]
fn zip_new() -> (z: ZipSink)
    ensures
        zip_members(z) == Seq::<(Seq<char>, bool, Seq<u8>)>::empty(),
{
    ZipSink { inner: zip::ZipWriter::new(std::io::Cursor::new(Vec::new())) }
}

/// Relies on zip's `ZipWriter::start_file`: on success a new, empty member
/// with this name is appended, with `Stored` (no compression) when `stored`
/// holds and the default `Deflated` compression otherwise; a duplicate name
/// is an error, never a panic.
#[verifier::external_body]
fn zip_start_member(z: &mut ZipSink, name: &str, stored: bool) -> (r: Result<(), ArchiveError>)
    ensures
        r is Ok ==> zip_members(*final(z)) == zip_members(*old(z)).push(
            (name@, stored, Seq::<u8>::empty()),
        ),
{
    let method = if stored {
        zip::CompressionMethod::Stored
    } else {
        zip::CompressionMethod::Deflated
    };
    let options = zip::write::SimpleFileOptions::default().compression_method(method);
    match z.inner.start_file(name, options) {
        Ok(()) => Ok(()),
        Err(_) => Err(ArchiveError::Write),
    }
}

/// Relies on `Write::write_all` on zip's `ZipWriter`: on success the bytes
/// are appended to the member last started; without an open member it
/// returns an error.
#[verifier::external_body]
fn zip_write_member(z: &mut ZipSink, data: &Vec<u8>) -> (r: Result<(), ArchiveError>)
    requires
        zip_members(*old(z)).len() > 0,
    ensures
        r is Ok ==> zip_members(*final(z)) == zip_members(*old(z)).update(
            zip_members(*old(z)).len() - 1,
            (
                zip_members(*old(z)).last().0,
                zip_members(*old(z)).last().1,
                zip_members(*old(z)).last().2 + data@,
            ),
        ),
{
    match z.inner.write_all(data.as_slice()) {
        Ok(()) => Ok(()),
        Err(_) => Err(ArchiveError::Write),
    }
}

/// Relies on zip's `ZipWriter::finish`: writes the central directory and
/// hands back the buffer holding the complete archive of the members
/// written.
#[verifier::external_body]
fn zip_finish(z: ZipSink) -> (r: Result<Vec<u8>, ArchiveError>)
{
    match z.inner.finish() {
        Ok(cursor) => Ok(cursor.into_inner()),
        Err(_) => Err(ArchiveError::Write),
    }
}

/// One file of the package working tree: its forward-slash-joined path
/// relative to the tree root, and its content.
#[derive(Debug)]
pub struct ArchiveFile {
    pub path: String,
    pub data: Vec<u8>,
}

/// The member plan of the package archive: the declaration file first,
/// stored without compression and holding exactly the reserved media-type
/// marker, then every file of the working tree in the given traversal
/// order, compressed.
pub open spec fn spec_archive_plan(files: Seq<ArchiveFile>) -> Seq<(Seq<char>, bool, Seq<u8>)> {
    seq![("mimetype"@, true, ("application/epub+zip").spec_bytes())] + files.map(
        |_i: int, f: ArchiveFile| (f.path@, false, f.data@),
    )
}

/// The declaration file is always the first member of the produced archive
/// plan, it is stored without compression, and its content is byte-exactly
/// the reserved media-type marker.
pub proof fn lemma_declaration_first(files: Seq<ArchiveFile>)
    ensures
        spec_archive_plan(files).len() == files.len() + 1,
        spec_archive_plan(files)[0] == ("mimetype"@, true, ("application/epub+zip").spec_bytes()),
        spec_archive_plan(files)[0].1 == true,
        forall|k: int|
            1 <= k < spec_archive_plan(files).len() ==> #[trigger] spec_archive_plan(files)[k] == (
                files[k - 1].path@,
                false,
                files[k - 1].data@,
            ),
{
}

/// Writes the archive members for a working tree, in the demanded order:
/// the declaration member first and uncompressed, then every file,
/// compressed. On success the writer holds exactly the member plan; a
/// failure of the underlying writer is handed back unchanged.
fn fill_archive(files: &Vec<ArchiveFile>) -> (r: Result<ZipSink, ArchiveError>)
    ensures
        r matches Ok(z) ==> z@ == spec_archive_plan(files@),
{
    let mut z = zip_new();
    match zip_start_member(&mut z, "mimetype", true) {
        Ok(()) => {},
        Err(e) => {
            return Err(e);
        },
    }
    let decl = mimetype_content().as_bytes_vec();
    match zip_write_member(&mut z, &decl) {
        Ok(()) => {},
        Err(e) => {
            return Err(e);
        },
    }
    proof {
        assert(Seq::<u8>::empty() + decl@ =~= decl@);
        assert(z@ =~= seq![("mimetype"@, true, ("application/epub+zip").spec_bytes())]);
        assert(files@.take(0).map(|_i: int, f: ArchiveFile| (f.path@, false, f.data@))
            =~= Seq::<(Seq<char>, bool, Seq<u8>)>::empty());
        assert(z@ =~= seq![("mimetype"@, true, ("application/epub+zip").spec_bytes())]
            + files@.take(0).map(|_i: int, f: ArchiveFile| (f.path@, false, f.data@)));
    }
    let mut i: usize = 0;
    while i < files.len()
        invariant
            i <= files@.len(),
            z@ == seq![("mimetype"@, true, ("application/epub+zip").spec_bytes())] + files@.take(
                i as int,
            ).map(|_i: int, f: ArchiveFile| (f.path@, false, f.data@)),
        decreases files@.len() - i,
    {
        let f = &files[i];
        let ghost before = z@;
        match zip_start_member(&mut z, f.path.as_str(), false) {
            Ok(()) => {},
            Err(e) => {
                return Err(e);
            },
        }
        match zip_write_member(&mut z, &f.data) {
            Ok(()) => {},
            Err(e) => {
                return Err(e);
            },
        }
        proof {
            assert(Seq::<u8>::empty() + f.data@ =~= f.data@);
            assert(z@ =~= before.push((f.path@, false, f.data@)));
            assert(files@.take(i + 1) =~= files@.take(i as int).push(files@[i as int]));
            assert(files@.take(i + 1).map(|_i: int, f: ArchiveFile| (f.path@, false, f.data@))
                =~= files@.take(i as int).map(|_i: int, f: ArchiveFile| (f.path@, false, f.data@))
                .push((files@[i as int].path@, false, files@[i as int].data@)));
            assert(z@ =~= seq![("mimetype"@, true, ("application/epub+zip").spec_bytes())]
                + files@.take(i + 1).map(|_i: int, f: ArchiveFile| (f.path@, false, f.data@)));
        }
        i += 1;
    }
    proof {
        assert(files@.take(files@.len() as int) =~= files@);
        assert(z@ =~= spec_archive_plan(files@));
    }
    Ok(z)
}

/// The final archive: its file name (derived from the working directory's
/// name) and its bytes.
#[derive(Debug)]
pub struct EpubCompressed {
    pub filename: String,
    pub bytes: Vec<u8>,
}

impl crate::opf::EpubGenerator {
    /// Compresses a collected package working tree (every file but the
    /// declaration file, in traversal order) into the final archive, and
    /// derives the archive's name from the working directory's name. The
    /// member order and compression follow `spec_archive_plan`; of the byte
    /// stream itself nothing more is claimed, and tests re-extract it.
    pub fn compress_epub(&self, dir_name: &str, files: &Vec<ArchiveFile>) -> (r: Result<
        EpubCompressed,
        ArchiveError,
    >)
        ensures
            r matches Ok(c) ==> c.filename@ == spec_epub_filename(dir_name@),
    {
        let filename = epub_filename(dir_name);
        let sink = match fill_archive(files) {
            Ok(z) => z,
            Err(e) => {
                return Err(e);
            },
        };
        let bytes = match zip_finish(sink) {
            Ok(b) => b,
            Err(e) => {
                return Err(e);
            },
        };
        Ok(EpubCompressed { filename, bytes })
    }
}

} // verus!
