//! Building the archive: one deflated entry per input file, through `zip::ZipWriter`.

use std::io::Cursor;
use std::io::Write;

use vstd::prelude::*;
use zip::result::ZipError;
use zip::write::FileOptions;
use zip::ZipWriter;

use crate::error::{path_of, ArchiveError};
use crate::paths::{base_name_of, entry_name};

verus! {

#[verifier::external_type_specification]
#[verifier::external_body]
pub struct ExZipError(ZipError);

#[verifier::external_type_specification]
#[verifier::external_body]
pub struct ExIoError(std::io::Error);

/// A `zip::ZipWriter` over a buffer in memory, the archive being built in it. Verus does
/// not take the writer's type, bounded by `Write + Seek`, as a declared outside type, so it
/// is held here out of Verus's sight and read through `writer_entries`.
#[verifier::external_body]
pub struct MemWriter {
    inner: ZipWriter<Cursor<Vec<u8>>>,
}

/// The entries that a writer holds, in the order they were started: each one's name and
/// the (uncompressed) bytes written to it.
pub uninterp spec fn writer_entries(w: MemWriter) -> Seq<(Seq<char>, Seq<u8>)>;

/// The writer can go on: it is not closed, and the compressed size of the entry being
/// written still fits the 32-bit field of its header.
pub uninterp spec fn writer_usable(w: MemWriter) -> bool;

/// The bytes of the ZIP archive that `zip::ZipWriter::finish` completes for these entries,
/// each stored deflated under the default options. No clock is read (the `time` feature is
/// off, so every entry is dated 1980-01-01), and the buffer is in memory: the bytes depend
/// on the entries alone.
pub uninterp spec fn zip_archive_of(entries: Seq<(Seq<char>, Seq<u8>)>) -> Seq<u8>;

/// The most bytes one entry may hold. The writer refuses an entry whose data, or whose
/// deflated data, passes `u32::MAX` bytes; deflate adds a few bytes per 64 KiB at worst,
/// so data up to this size always fits.
pub const ENTRY_SIZE_LIMIT: u64 = 4_000_000_000;

/// Relies on `zip::ZipWriter::new`: a new writer holds no entries and is open.
#[verifier::external_body]
fn new_writer() -> (w: MemWriter)
    ensures
        writer_entries(w) == Seq::<(Seq<char>, Seq<u8>)>::empty(),
        writer_usable(w),
{
    MemWriter { inner: ZipWriter::new(Cursor::new(Vec::new())) }
}

/// Relies on `zip::ZipWriter::start_file` with the default options (deflate): on success
/// the writer holds one more entry, stored under `name` exactly and empty so far. It does
/// not look for an earlier entry of the same name. It fails only on a closed writer, on a
/// previous entry too large for its header, or where the buffer cannot be written, which a
/// buffer in memory never refuses.
#[verifier::external_body]
fn start_entry(w: &mut MemWriter, name: &str) -> (r: Result<(), ZipError>)
    ensures
        writer_usable(*old(w)) ==> r is Ok && writer_usable(*final(w)),
        r is Ok ==> writer_entries(*final(w)) == writer_entries(*old(w)).push(
            (name@, Seq::<u8>::empty()),
        ),
{
    w.inner.start_file(name, FileOptions::default())
}

/// Relies on `std::io::Write::write_all` as `zip::ZipWriter` implements `write`: on
/// success all of `data` is appended to the entry started last. It fails only on a closed
/// writer or once the entry's data passes `u32::MAX` bytes.
#[verifier::external_body]
fn write_entry(w: &mut MemWriter, data: &[u8]) -> (r: Result<(), std::io::Error>)
    requires
        writer_entries(*old(w)).len() > 0,
    ensures
        writer_usable(*old(w)) && writer_entries(*old(w)).last().1.len() + data@.len()
            <= ENTRY_SIZE_LIMIT ==> r is Ok && writer_usable(*final(w)),
        r is Ok ==> writer_entries(*final(w)) == writer_entries(*old(w)).update(
            writer_entries(*old(w)).len() - 1,
            (
                writer_entries(*old(w)).last().0,
                writer_entries(*old(w)).last().1 + data@,
            ),
        ),
{
    w.inner.write_all(data)
}

/// Relies on `zip::ZipWriter::finish`: writes the central directory and hands back the
/// buffer that holds the whole archive. It fails only where the writer could not go on.
#[verifier::external_body]
fn finish_writer(w: &mut MemWriter) -> (r: Result<Vec<u8>, ZipError>)
    ensures
        writer_usable(*old(w)) ==> r is Ok,
        r matches Ok(b) ==> b@ == zip_archive_of(writer_entries(*old(w))),
{
    w.inner.finish().map(|c| c.into_inner())
}

/// Relies on the `Display` impl of `zip::result::ZipError`, for the reason shown to the user.
#[verifier::external_body]
fn zip_error_text(e: &ZipError) -> String {
    e.to_string()
}

/// Relies on the `Display` impl of `std::io::Error`, for the reason shown to the user.
#[verifier::external_body]
fn io_error_text(e: &std::io::Error) -> String {
    e.to_string()
}

/// A file to be stored: the path it was named by, and its contents.
pub struct InputFile {
    pub path: String,
    pub contents: Vec<u8>,
}

/// The entry a file becomes: its base name and its contents.
pub open spec fn entry_of(f: InputFile) -> (Seq<char>, Seq<u8>) {
    (base_name_of(f.path@)->Some_0, f.contents@)
}

/// Every file has a base name.
pub open spec fn all_named(files: Seq<InputFile>) -> bool {
    forall|i: int| 0 <= i < files.len() ==> (#[trigger] base_name_of(files[i].path@)) is Some
}

/// A file small enough to be stored as one entry.
pub open spec fn fits(f: InputFile) -> bool {
    f.contents@.len() <= ENTRY_SIZE_LIMIT
}

/// Every file is small enough to be stored.
pub open spec fn all_fit(files: Seq<InputFile>) -> bool {
    forall|i: int| 0 <= i < files.len() ==> #[trigger] fits(files[i])
}

/// The entries that `files` become, in order.
pub open spec fn planned_entries(files: Seq<InputFile>) -> Seq<(Seq<char>, Seq<u8>)> {
    files.map_values(|f: InputFile| entry_of(f))
}

/// An archive being built in memory.
pub struct Archive {
    writer: MemWriter,
}

impl Archive {
    /// The entries stored so far, in order.
    pub closed spec fn entries(&self) -> Seq<(Seq<char>, Seq<u8>)> {
        writer_entries(self.writer)
    }

    /// More entries can be added and the archive completed.
    pub closed spec fn usable(&self) -> bool {
        writer_usable(self.writer)
    }

    /// An archive with no entries.
    pub fn new() -> (r: Archive)
        ensures
            r.entries() == Seq::<(Seq<char>, Seq<u8>)>::empty(),
            r.usable(),
    {
        Archive { writer: new_writer() }
    }

    /// Stores `contents` as a new entry under `name`; `path` is the file it came from,
    /// named in the error. It succeeds whenever the archive is usable and `contents` is
    /// within `ENTRY_SIZE_LIMIT`. After an error the archive must not be used further.
    pub fn add_entry(&mut self, path: &str, name: &str, contents: &[u8]) -> (r: Result<
        (),
        ArchiveError,
    >)
        ensures
            old(self).usable() && contents@.len() <= ENTRY_SIZE_LIMIT ==> r is Ok
                && final(self).usable(),
            r is Ok ==> final(self).entries() == old(self).entries().push((name@, contents@)),
            r matches Err(e) ==> e is Input && path_of(e) == path@,
    {
        match start_entry(&mut self.writer, name) {
            Ok(()) => {},
            Err(e) => {
                return Err(ArchiveError::Input { path: path.to_string(), reason: zip_error_text(&e) });
            },
        }
        match write_entry(&mut self.writer, contents) {
            Ok(()) => {},
            Err(e) => {
                return Err(ArchiveError::Input { path: path.to_string(), reason: io_error_text(&e) });
            },
        }
        assert(Seq::<u8>::empty() + contents@ =~= contents@);
        Ok(())
    }

    /// Stores `contents` as a new entry named by the base name of `path`.
    /// A path without a base name is refused, and the archive is left as it was. Otherwise
    /// it succeeds whenever the archive is usable and `contents` is within
    /// `ENTRY_SIZE_LIMIT`. After any other error the archive must not be used further.
    pub fn add_file(&mut self, path: &str, contents: &[u8]) -> (r: Result<(), ArchiveError>)
        ensures
            base_name_of(path@) is None <==> r matches Err(ArchiveError::InvalidFileName { .. }),
            old(self).usable() && base_name_of(path@) is Some && contents@.len()
                <= ENTRY_SIZE_LIMIT ==> r is Ok && final(self).usable(),
            r matches Err(e) ==> path_of(e) == path@ && (e is InvalidFileName || e is Input),
            r matches Err(ArchiveError::InvalidFileName { .. }) ==> final(self).entries()
                == old(self).entries() && final(self).usable() == old(self).usable(),
            r is Ok ==> final(self).entries() == old(self).entries().push(
                (base_name_of(path@)->Some_0, contents@),
            ),
    {
        let name = entry_name(path)?;
        self.add_entry(path, name.as_str(), contents)
    }

    /// Completes the archive and returns its bytes: the ZIP archive of its entries. It
    /// succeeds whenever the archive is usable. A failure is reported against
    /// `archive_path`, the place the archive was meant for.
    pub fn finish(self, archive_path: &str) -> (r: Result<Vec<u8>, ArchiveError>)
        ensures
            self.usable() ==> r is Ok,
            r matches Ok(b) ==> b@ == zip_archive_of(self.entries()),
            r matches Err(e) ==> e is Output && path_of(e) == archive_path@,
    {
        let mut writer = self.writer;
        match finish_writer(&mut writer) {
            Ok(bytes) => Ok(bytes),
            Err(e) => Err(ArchiveError::Output { path: archive_path.to_string(), reason: zip_error_text(&e) }),
        }
    }
}

/// The ZIP archive holding one entry per file of `files`, in order, each named by its
/// file's base name. It succeeds whenever every file has a base name and fits
/// `ENTRY_SIZE_LIMIT`. Otherwise it fails at the first file without a base name, or at the
/// first file that the writer could not store (one at or after a file too large), or when
/// completing the archive (`archive_path` is named then).
pub fn build_archive(files: &Vec<InputFile>, archive_path: &str) -> (r: Result<
    Vec<u8>,
    ArchiveError,
>)
    ensures
        r matches Ok(b) ==> all_named(files@) && b@ == zip_archive_of(planned_entries(files@)),
        all_named(files@) && all_fit(files@) ==> r is Ok,
        !all_named(files@) ==> r is Err,
        r matches Err(e) ==> (e is Output && path_of(e) == archive_path@ && all_named(files@)
            && !all_fit(files@)) || exists|i: int|
            0 <= i < files.len() && #[trigger] files[i].path@ == path_of(e) && (forall|j: int|
                0 <= j < i ==> (#[trigger] base_name_of(files[j].path@)) is Some) && (
            e is InvalidFileName <==> base_name_of(files[i].path@) is None) && (
            e is InvalidFileName || e is Input) && (e is Input ==> !all_fit(
                files@.take(i + 1),
            )),
{
    let mut archive = Archive::new();
    let mut i: usize = 0;
    while i < files.len()
        invariant
            i <= files.len(),
            all_named(files@.take(i as int)),
            archive.entries() == planned_entries(files@.take(i as int)),
            all_fit(files@.take(i as int)) ==> archive.usable(),
        decreases files.len() - i,
    {
        let ghost before = archive.entries();
        let ghost was_usable = archive.usable();
        let f = &files[i];
        proof {
            if all_fit(files@.take(i + 1)) {
                let upto = files@.take(i + 1);
                assert forall|j: int| 0 <= j < i implies #[trigger] fits(
                    files@.take(i as int)[j],
                ) by {
                    assert(files@.take(i as int)[j] == upto[j]);
                }
                assert(upto[i as int] == files[i as int]);
                assert(fits(files[i as int]) && archive.usable());
            }
            if all_fit(files@) {
                assert forall|j: int| 0 <= j < i + 1 implies #[trigger] fits(
                    files@.take(i + 1)[j],
                ) by {
                    assert(files@.take(i + 1)[j] == files@[j]);
                }
            }
        }
        match archive.add_file(f.path.as_str(), f.contents.as_slice()) {
            Ok(()) => {},
            Err(e) => {
                proof {
                    assert(forall|j: int| 0 <= j < i ==> files@.take(i as int)[j] == files@[j]);
                    assert(files[i as int].path@ == path_of(e));
                }
                return Err(e);
            },
        }
        proof {
            let next = files@.take(i + 1);
            assert(next =~= files@.take(i as int).push(files[i as int]));
            assert(planned_entries(next) =~= before.push(entry_of(files[i as int])));
            assert forall|j: int| 0 <= j < next.len() implies (#[trigger] base_name_of(
                next[j].path@,
            )) is Some by {
                if j < i {
                    assert(next[j] == files@.take(i as int)[j]);
                }
            }
        }
        i = i + 1;
    }
    assert(files@.take(files.len() as int) =~= files@);
    archive.finish(archive_path)
}

/// Each file given becomes exactly one entry of the archive, at its own position, named by
/// the file's base name and holding the file's bytes.
pub proof fn lemma_one_entry_per_file(files: Seq<InputFile>)
    requires
        all_named(files),
    ensures
        planned_entries(files).len() == files.len(),
        forall|i: int|
            0 <= i < files.len() ==> Some((#[trigger] planned_entries(files)[i]).0)
                == base_name_of(files[i].path@) && planned_entries(files)[i].1 == files[i].contents@,
{
    assert forall|i: int| 0 <= i < files.len() implies Some(
        (#[trigger] planned_entries(files)[i]).0,
    ) == base_name_of(files[i].path@) by {
        assert(base_name_of(files[i].path@) is Some);
    }
}

/// Two files with the same base name are both kept: the archive holds two entries under
/// that one name, in the order of the files, each with its own file's bytes. Nothing
/// replaces or merges them.
pub proof fn lemma_same_name_both_kept(files: Seq<InputFile>, i: int, j: int)
    requires
        all_named(files),
        0 <= i < j < files.len(),
        base_name_of(files[i].path@) == base_name_of(files[j].path@),
    ensures
        planned_entries(files).len() == files.len(),
        planned_entries(files)[i].0 == planned_entries(files)[j].0,
        planned_entries(files)[i].1 == files[i].contents@,
        planned_entries(files)[j].1 == files[j].contents@,
{
}

} // verus!
