//! A student's uploaded files packed into one ZIP archive for download.
use vstd::prelude::*;
use std::io::Write;
use crate::students::{archive_entry_name, zip_entry_name};

verus! {

/// A ZIP archive being written into an in-memory buffer (`zip::ZipWriter`),
/// every file with the default options.
#[verifier::external_body]
pub struct ZipBuffer {
    writer: zip::ZipWriter<std::io::Cursor<Vec<u8>>>,
}

/// The files that an archive holds so far: each name with its contents.
pub uninterp spec fn zip_entries(w: ZipBuffer) -> Seq<(Seq<char>, Seq<u8>)>;

/// Whether a call into the archive writer has failed. Nothing is stated of
/// what such an archive holds.
pub uninterp spec fn zip_failed(w: ZipBuffer) -> bool;

/// The bytes of a finished archive holding the given files, written with the
/// default options. Without the crate's `time` feature every file carries the
/// fixed default date, so the bytes depend on the files alone.
pub uninterp spec fn zip_bytes(entries: Seq<(Seq<char>, Seq<u8>)>) -> Seq<u8>;

/// The longest name, in characters, of a file that is sure to fit in an entry
/// header (whose name takes less than 64 KiB).
pub open spec fn zip_name_limit() -> nat {
    16000
}

/// The size, in bytes, that a file's contents stay under so that they need no
/// large-file option (under 4 GiB even after compression).
pub open spec fn zip_file_limit() -> nat {
    0x8000_0000
}

/// Some file of `entries` is at least as large as the large-file threshold
/// allows.
pub open spec fn has_large_file(entries: Seq<(Seq<char>, Seq<u8>)>) -> bool {
    exists|i: int| 0 <= i < entries.len() && #[trigger] entries[i].1.len() >= zip_file_limit()
}

/// Some file of `entries` is named `name`.
pub open spec fn holds_name(entries: Seq<(Seq<char>, Seq<u8>)>, name: Seq<char>) -> bool {
    exists|i: int| 0 <= i < entries.len() && #[trigger] entries[i].0 == name
}

/// Why an archive could not be written.
#[derive(PartialEq, Eq, Structural, Debug)]
pub enum ArchiveError {
    /// The archive writer reported an error.
    Zip,
}

/// An empty archive (`ZipWriter::new`).
#[verifier::external_body]
fn zip_new() -> (r: ZipBuffer)
    ensures
        zip_entries(r) == Seq::<(Seq<char>, Seq<u8>)>::empty(),
        !zip_failed(r),
{
    ZipBuffer { writer: zip::ZipWriter::new(std::io::Cursor::new(Vec::new())) }
}

/// Starts a new file in the archive (`ZipWriter::start_file`, default
/// options). When it succeeds the archive holds a new empty file of that
/// name. Into memory it fails only on a name the archive already holds, a
/// name too long for an entry header, or when finishing the previous file
/// needs the large-file option.
#[verifier::external_body]
fn zip_start_file(w: &mut ZipBuffer, name: String) -> (r: Result<(), ArchiveError>)
    ensures
        r is Ok ==> zip_entries(*final(w)) == zip_entries(*old(w)).push((name@, Seq::<u8>::empty())),
        r is Ok ==> zip_failed(*final(w)) == zip_failed(*old(w)),
        r is Err ==> zip_failed(*final(w)),
        r is Err ==> zip_failed(*old(w)) || holds_name(zip_entries(*old(w)), name@) || name@.len()
            > zip_name_limit() || has_large_file(zip_entries(*old(w))),
{
    match w.writer.start_file(name, zip::write::SimpleFileOptions::default()) {
        Ok(()) => Ok(()),
        Err(_) => Err(ArchiveError::Zip),
    }
}

/// Writes bytes into the file last started (`Write::write_all`). When it
/// succeeds they follow that file's contents. Into memory it fails only when
/// the file grows to the large-file threshold.
#[verifier::external_body]
fn zip_write_all(w: &mut ZipBuffer, bytes: &[u8]) -> (r: Result<(), ArchiveError>)
    requires
        zip_entries(*old(w)).len() > 0,
    ensures
        r is Ok ==> zip_entries(*final(w)) == zip_entries(*old(w)).update(
            zip_entries(*old(w)).len() - 1,
            (zip_entries(*old(w)).last().0, zip_entries(*old(w)).last().1 + bytes@),
        ),
        r is Ok ==> zip_failed(*final(w)) == zip_failed(*old(w)),
        r is Err ==> zip_failed(*final(w)),
        r is Err ==> zip_failed(*old(w)) || zip_entries(*old(w)).last().1.len() + bytes@.len()
            >= zip_file_limit(),
{
    match w.writer.write_all(bytes) {
        Ok(()) => Ok(()),
        Err(_) => Err(ArchiveError::Zip),
    }
}

/// Finishes the archive and hands back its bytes (`ZipWriter::finish`). Into
/// memory it fails only when a file needs the large-file option.
#[verifier::external_body]
fn zip_finish(w: ZipBuffer) -> (r: Result<Vec<u8>, ArchiveError>)
    ensures
        r matches Ok(b) ==> (!zip_failed(w) ==> b@ == zip_bytes(zip_entries(w))),
        r is Err ==> zip_failed(w) || has_large_file(zip_entries(w)),
{
    match w.writer.finish() {
        Ok(c) => Ok(c.into_inner()),
        Err(_) => Err(ArchiveError::Zip),
    }
}

/// The files of a student's download: each uploaded file under its download
/// name.
pub open spec fn archive_files(
    first: Seq<char>,
    last: Seq<char>,
    files: Seq<(String, Vec<u8>)>,
) -> Seq<(Seq<char>, Seq<u8>)> {
    files.map_values(|f: (String, Vec<u8>)| (archive_entry_name(first, last, f.0@), f.1@))
}

/// The student's files fit in an archive: their download names are distinct
/// and short enough for an entry header, and each file's contents stay under
/// the large-file threshold.
pub open spec fn archive_fits(first: Seq<char>, last: Seq<char>, files: Seq<(String, Vec<u8>)>) -> bool {
    &&& forall|i: int, j: int|
        0 <= i < j < files.len() ==> archive_entry_name(first, last, #[trigger] files[i].0@)
            != archive_entry_name(first, last, #[trigger] files[j].0@)
    &&& forall|i: int|
        0 <= i < files.len() ==> archive_entry_name(first, last, #[trigger] files[i].0@).len() <= zip_name_limit()
    &&& forall|i: int| 0 <= i < files.len() ==> (#[trigger] files[i].1@).len() < zip_file_limit()
}

/// Packs a student's uploaded files, each given as its storage key and its
/// bytes, into one archive, each under its download name. Files that fit are
/// always packed.
pub fn student_archive(first_name: &str, last_name: &str, files: &Vec<(String, Vec<u8>)>) -> (r: Result<
    Vec<u8>,
    ArchiveError,
>)
    ensures
        archive_fits(first_name@, last_name@, files@) ==> r is Ok,
        r matches Ok(b) ==> b@ == zip_bytes(archive_files(first_name@, last_name@, files@)),
{
    let ghost fl = first_name@;
    let ghost ll = last_name@;
    let mut w = zip_new();
    for i in 0..files.len()
        invariant
            zip_entries(w) == archive_files(fl, ll, files@.take(i as int)),
            !zip_failed(w),
            fl == first_name@,
            ll == last_name@,
    {
        let name = zip_entry_name(first_name, last_name, files[i].0.as_str());
        let ghost before = zip_entries(w);
        match zip_start_file(&mut w, name) {
            Ok(()) => {},
            Err(e) => {
                proof {
                    if holds_name(before, name@) {
                        let j = choose|j: int| 0 <= j < before.len() && #[trigger] before[j].0 == name@;
                        assert(before[j].0 == archive_entry_name(fl, ll, files@[j].0@));
                    }
                    if has_large_file(before) {
                        let j = choose|j: int| 0 <= j < before.len() && #[trigger] before[j].1.len() >= zip_file_limit();
                        assert(before[j].1 == files@[j].1@);
                    }
                    assert(!archive_fits(fl, ll, files@));
                }
                return Err(e);
            },
        }
        match zip_write_all(&mut w, files[i].1.as_slice()) {
            Ok(()) => {},
            Err(e) => {
                proof {
                    assert(!archive_fits(fl, ll, files@));
                }
                return Err(e);
            },
        }
        assert(zip_entries(w) =~= before.push((name@, files@[i as int].1@)));
        assert(files@.take(i + 1) =~= files@.take(i as int).push(files@[i as int]));
        assert(zip_entries(w) =~= archive_files(fl, ll, files@.take(i + 1)));
    }
    assert(files@.take(files@.len() as int) =~= files@);
    let ghost all = zip_entries(w);
    let r = zip_finish(w);
    proof {
        if r is Err {
            let j = choose|j: int| 0 <= j < all.len() && #[trigger] all[j].1.len() >= zip_file_limit();
            assert(all[j].1 == files@[j].1@);
            assert(!archive_fits(fl, ll, files@));
        }
    }
    r
}

} // verus!
