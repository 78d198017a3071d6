//! The bridge to the archive codec, the `zip` crate, on byte buffers in
//! memory. A reader is opened on a file and asked, entry by entry, where
//! the entry's record begins. A writer is opened behind a prefix, entries
//! are started and written in it, and closing it gives the file.
//!
//! What the codec finds in a file, and which bytes it writes for given
//! entries, is not proved here. Both are given a name, and the functions
//! that use the codec decide in verified code which entry they ask for and
//! which entries they write, and test what they rely on.

use vstd::prelude::*;
use std::io::{Cursor, Write};
use zip::write::FileOptions;
use zip::{DateTime, ZipArchive, ZipWriter};

verus! {

/// The error of `zip`, carried through as an opaque value.
#[verifier::external_type_specification]
#[verifier::external_body]
pub struct ExZipError(zip::result::ZipError);

/// The buffer of `std::io`, carried through as an opaque value.
#[verifier::external_type_specification]
#[verifier::external_body]
#[verifier::reject_recursive_types(T)]
pub struct ExCursor<T>(std::io::Cursor<T>);

/// The reader of `zip`, carried through as an opaque value.
#[verifier::external_type_specification]
#[verifier::external_body]
#[verifier::reject_recursive_types(R)]
pub struct ExZipArchive<R>(zip::ZipArchive<R>);

/// An open writer of `zip` over a buffer in memory. The type of `zip` is
/// bounded by the writing traits of `std::io`, which stand outside what is
/// verified, so the writer is held here, out of sight.
#[verifier::external_body]
pub struct ArchiveWriter {
    writer: ZipWriter<Cursor<Vec<u8>>>,
}

/// One entry of an archive: its name and its bytes.
pub type Entry = (Seq<char>, Seq<u8>);

/// What `zip` finds in the file `bytes`: for each entry of the archive that
/// the file ends in, in the order of its directory, the offset at which the
/// entry's record begins, or `None` where the record cannot be found.
/// `None` for the whole where the file ends in no archive.
pub uninterp spec fn records_of(bytes: Seq<u8>) -> Option<Seq<Option<u64>>>;

/// What an open reader holds: for each entry, the offset of its record.
pub uninterp spec fn records_in(reader: ZipArchive<Cursor<&[u8]>>) -> Seq<Option<u64>>;

/// The bytes behind which an open writer writes.
pub uninterp spec fn prefix_in(writer: ArchiveWriter) -> Seq<u8>;

/// The entries that an open writer holds, in the order in which they were
/// started.
pub uninterp spec fn entries_in(writer: ArchiveWriter) -> Seq<Entry>;

/// Whether an open writer is intact: no call on it has reported an error.
pub uninterp spec fn intact(writer: ArchiveWriter) -> bool;

/// The file that `zip` leaves when a writer is opened behind `prefix`, each
/// of `entries` is started and written in one piece, in their order, and
/// the writer is closed; `None` where one of these steps reports an error.
/// Every entry is started with the codec's default options, which in this
/// crate's build of it compress with deflate, and with its default date, so
/// that no clock is read.
pub uninterp spec fn archive_image(prefix: Seq<u8>, entries: Seq<Entry>) -> Option<Seq<u8>>;

/// Whether `all` begins with the entries `start`.
pub open spec fn begins_with(all: Seq<Entry>, start: Seq<Entry>) -> bool {
    start.len() <= all.len() && all.take(start.len() as int) == start
}

/// Whether `all` begins with the entries `start` and goes on with an entry
/// named `name`.
pub open spec fn goes_on_with(all: Seq<Entry>, start: Seq<Entry>, name: Seq<char>) -> bool {
    start.len() < all.len() && all.take(start.len() as int) == start && all[start.len() as int].0
        == name
}

/// Calls `zip::ZipArchive::new` on `bytes`. Trusted: the reader holds what
/// `records_of` names for the file, and an error comes exactly where it
/// names nothing; a record that can be found begins inside the file, since
/// its signature is read there.
#[verifier::external_body]
pub(crate) fn open_reader(bytes: &[u8]) -> (r: Result<
    ZipArchive<Cursor<&[u8]>>,
    zip::result::ZipError,
>)
    ensures
        match r {
            Ok(reader) => records_of(bytes@) == Some(records_in(reader)) && forall|i: int|
                0 <= i < records_in(reader).len() ==> (#[trigger] records_in(reader)[i]
                    matches Some(offset) ==> offset < bytes.len()),
            Err(_) => records_of(bytes@) is None,
        },
{
    ZipArchive::new(Cursor::new(bytes))
}

/// Calls `zip::ZipArchive::len`. Trusted: it is the number of entries.
#[verifier::external_body]
pub(crate) fn record_count(reader: &ZipArchive<Cursor<&[u8]>>) -> (count: usize)
    ensures
        count == records_in(*reader).len(),
{
    reader.len()
}

/// Calls `zip::ZipArchive::by_index_raw` and `ZipFile::header_start` on
/// what it gives. Trusted: the offset is the one that the reader holds for
/// the entry, an error comes exactly where it holds none, and the reader
/// holds afterwards what it held.
#[verifier::external_body]
pub(crate) fn record_offset(reader: &mut ZipArchive<Cursor<&[u8]>>, i: usize) -> (r: Result<
    u64,
    zip::result::ZipError,
>)
    requires
        i < records_in(*old(reader)).len(),
    ensures
        records_in(*final(reader)) == records_in(*old(reader)),
        match r {
            Ok(offset) => records_in(*old(reader))[i as int] == Some(offset),
            Err(_) => records_in(*old(reader))[i as int] is None,
        },
{
    let record = reader.by_index_raw(i)?;
    Ok(record.header_start())
}

/// Calls `zip::ZipWriter::new` on a buffer that holds `prefix` and stands
/// at its end. Neither the buffer nor the call can fail. Trusted: the
/// writer writes behind `prefix`, holds no entry and is intact.
#[verifier::external_body]
pub(crate) fn open_writer(prefix: &[u8]) -> (writer: ArchiveWriter)
    ensures
        prefix_in(writer) == prefix@,
        entries_in(writer).len() == 0,
        intact(writer),
{
    let mut buffer = Cursor::new(prefix.to_vec());
    buffer.set_position(prefix.len() as u64);
    ArchiveWriter { writer: ZipWriter::new(buffer) }
}

/// Calls `zip::ZipWriter::start_file` with the options
/// `FileOptions::default()` and the codec's default date, so that no clock
/// is read. Trusted: where it succeeds the writer holds one entry more, of
/// that name and empty, and is intact; where it fails no archive that
/// begins with the writer's entries and goes on with an entry of that name
/// can be written behind the prefix.
#[verifier::external_body]
pub(crate) fn start_entry(writer: &mut ArchiveWriter, name: &str) -> (r: Result<
    (),
    zip::result::ZipError,
>)
    requires
        intact(*old(writer)),
    ensures
        r is Ok ==> intact(*final(writer)) && prefix_in(*final(writer)) == prefix_in(*old(writer))
            && entries_in(*final(writer)) == entries_in(*old(writer)).push(
            (name@, Seq::<u8>::empty()),
        ),
        r is Err ==> forall|all: Seq<Entry>|
            goes_on_with(all, entries_in(*old(writer)), name@) ==> #[trigger] archive_image(
                prefix_in(*old(writer)),
                all,
            ) is None,
{
    let options = FileOptions::default().last_modified_time(DateTime::default());
    writer.writer.start_file(name, options)
}

/// Calls `std::io::Write::write_all` on the writer, for an entry that was
/// started and not written yet. Trusted: where it succeeds the entry
/// started last holds `data`, nothing else has changed, and the writer is
/// intact; where it fails no archive that begins with the writer's
/// entries, the last of them holding `data`, can be written behind the
/// prefix.
#[verifier::external_body]
pub(crate) fn write_entry(writer: &mut ArchiveWriter, data: &[u8]) -> (r: Result<
    (),
    zip::result::ZipError,
>)
    requires
        intact(*old(writer)),
        entries_in(*old(writer)).len() > 0,
        entries_in(*old(writer)).last().1.len() == 0,
    ensures
        r is Ok ==> intact(*final(writer)) && prefix_in(*final(writer)) == prefix_in(*old(writer))
            && entries_in(*final(writer)) == entries_in(*old(writer)).drop_last().push(
            (entries_in(*old(writer)).last().0, data@),
        ),
        r is Err ==> forall|all: Seq<Entry>|
            begins_with(
                all,
                entries_in(*old(writer)).drop_last().push(
                    (entries_in(*old(writer)).last().0, data@),
                ),
            ) ==> #[trigger] archive_image(prefix_in(*old(writer)), all) is None,
{
    Ok(writer.writer.write_all(data)?)
}

/// Calls `zip::ZipWriter::finish` on an intact writer and takes the bytes
/// out of the buffer. Trusted: they are the file that `archive_image` names
/// for the writer's prefix and entries, and an error comes exactly where it
/// names none.
#[verifier::external_body]
pub(crate) fn close_writer(writer: ArchiveWriter) -> (r: Result<Vec<u8>, zip::result::ZipError>)
    requires
        intact(writer),
    ensures
        match r {
            Ok(bytes) => archive_image(prefix_in(writer), entries_in(writer)) == Some(bytes@),
            Err(_) => archive_image(prefix_in(writer), entries_in(writer)) is None,
        },
{
    let mut writer = writer;
    Ok(writer.writer.finish()?.into_inner())
}

} // verus!
