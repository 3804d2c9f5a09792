//! Zip archives in memory.

use vstd::prelude::*;
use vstd::utf8::*;

verus! {

/// A cursor over bytes, from the standard library.
#[verifier::external_type_specification]
#[verifier::external_body]
#[verifier::reject_recursive_types(T)]
pub struct ExCursor<T>(std::io::Cursor<T>);

/// An archive that is read.
#[verifier::external_type_specification]
#[verifier::external_body]
#[verifier::reject_recursive_types(R)]
pub struct ExZipArchive<R>(zip::ZipArchive<R>);

/// The bytes that an open archive is read from.
pub uninterp spec fn archive_bytes(archive: zip::ZipArchive<std::io::Cursor<Vec<u8>>>) -> Seq<u8>;

/// The number of entries of the archive in some bytes, or nothing where they
/// are no archive.
pub uninterp spec fn archive_size(bytes: Seq<u8>) -> Option<nat>;

/// The name of an entry of the archive in some bytes, or nothing where the
/// entry cannot be opened.
pub uninterp spec fn entry_name_in(bytes: Seq<u8>, index: int) -> Option<Seq<char>>;

/// What the entry of some name of the archive in some bytes holds: nothing where
/// no entry of that name can be opened, or where it cannot be read.
pub uninterp spec fn entry_bytes_in(bytes: Seq<u8>, name: Seq<char>) -> Option<Option<Seq<u8>>>;

/// Where the packed data of an entry of the archive in some bytes begins, and how
/// long it is said to be packed and unpacked; nothing where the entry cannot be
/// opened.
pub uninterp spec fn entry_span_in(bytes: Seq<u8>, index: int) -> Option<(u64, u64, u64)>;

/// `zip::ZipArchive::new`: opens the archive in some bytes. Which bytes are an
/// archive is left to the outside crate, and named.
#[verifier::external_body]
pub(crate) fn open_archive(bytes: Vec<u8>) -> (r: Option<
    zip::ZipArchive<std::io::Cursor<Vec<u8>>>,
>)
    ensures
        match r {
            Some(archive) => archive_size(bytes@) is Some && archive_bytes(archive) == bytes@,
            None => archive_size(bytes@) is None,
        },
{
    zip::ZipArchive::new(std::io::Cursor::new(bytes)).ok()
}

/// `zip::ZipArchive::len`: the number of entries of an archive.
#[verifier::external_body]
pub(crate) fn entry_count(archive: &zip::ZipArchive<std::io::Cursor<Vec<u8>>>) -> (n: usize)
    ensures
        archive_size(archive_bytes(*archive)) == Some(n as nat),
{
    archive.len()
}

/// `zip::ZipArchive::by_index` and `zip::read::ZipFile::name`: the name of an
/// entry, where the entry can be opened. Which names an archive holds is left
/// to the outside crate, and named.
#[verifier::external_body]
pub(crate) fn entry_name(
    archive: &mut zip::ZipArchive<std::io::Cursor<Vec<u8>>>,
    index: usize,
) -> (r: Option<String>)
    ensures
        archive_bytes(*final(archive)) == archive_bytes(*old(archive)),
        match entry_name_in(archive_bytes(*old(archive)), index as int) {
            Some(name) => r matches Some(got) && got@ == name,
            None => r is None,
        },
{
    archive.by_index(index).ok().map(|entry| entry.name().to_owned())
}

/// `zip::ZipArchive::by_name` and `std::io::Read::read_to_end`: what the entry of
/// some name holds. What it is, is left to the outside crate, and named.
#[verifier::external_body]
pub(crate) fn entry_bytes(
    archive: &mut zip::ZipArchive<std::io::Cursor<Vec<u8>>>,
    name: &str,
) -> (r: Option<Option<Vec<u8>>>)
    ensures
        archive_bytes(*final(archive)) == archive_bytes(*old(archive)),
        match entry_bytes_in(archive_bytes(*old(archive)), name@) {
            Some(Some(bytes)) => r matches Some(Some(got)) && got@ == bytes,
            Some(None) => r matches Some(None),
            None => r is None,
        },
{
    let mut entry = archive.by_name(name).ok()?;
    let mut bytes = Vec::new();
    Some(std::io::Read::read_to_end(&mut entry, &mut bytes).ok().map(|_| bytes))
}

/// `zip::ZipArchive::by_index`, `zip::read::ZipFile::data_start`,
/// `zip::read::ZipFile::compressed_size` and `zip::read::ZipFile::size`: where the
/// packed data of an entry begins and how long it is said to be packed and
/// unpacked, where the entry can be opened. What an archive says of it is left to
/// the outside crate, and named.
#[verifier::external_body]
pub(crate) fn entry_span(
    archive: &mut zip::ZipArchive<std::io::Cursor<Vec<u8>>>,
    index: usize,
) -> (r: Option<(u64, u64, u64)>)
    ensures
        archive_bytes(*final(archive)) == archive_bytes(*old(archive)),
        r == entry_span_in(archive_bytes(*old(archive)), index as int),
{
    archive.by_index(index).ok().map(
        |entry| (entry.data_start(), entry.compressed_size(), entry.size()),
    )
}

/// An archive that is written in memory.
#[verifier::external_body]
pub struct PackWriter {
    writer: zip::ZipWriter<std::io::Cursor<Vec<u8>>>,
}

/// An entry of an archive that was copied: the bytes of that archive, and the
/// place of the entry in it.
pub type Copied = (Seq<u8>, int);

/// The entries that were copied into an archive, in their order.
pub uninterp spec fn copied_into(writer: PackWriter) -> Seq<Copied>;

/// Whether one more entry can be copied behind those in `copied`.
pub uninterp spec fn can_copy(copied: Seq<Copied>, bytes: Seq<u8>, index: int) -> bool;

/// The bytes of the archive made of copied entries, or nothing where it cannot
/// be finished.
pub uninterp spec fn finished_archive(copied: Seq<Copied>) -> Option<Seq<u8>>;

/// `zip::ZipWriter::new`: an archive without entries.
#[verifier::external_body]
pub(crate) fn new_archive() -> (r: PackWriter)
    ensures
        copied_into(r) == Seq::<Copied>::empty(),
{
    PackWriter { writer: zip::ZipWriter::new(std::io::Cursor::new(Vec::new())) }
}

/// The most bytes that the name of an entry takes in UTF-8.
pub const MAX_ENTRY_NAME: usize = 65535;

/// `zip::ZipArchive::by_index` and `zip::ZipWriter::raw_copy_file`: copies an
/// entry of one archive, as it is, into another. When that succeeds is left to
/// the outside crate, and named; a longer name than an archive can hold must
/// not be copied.
#[verifier::external_body]
pub(crate) fn copy_entry(
    archive: &mut zip::ZipArchive<std::io::Cursor<Vec<u8>>>,
    index: usize,
    into: &mut PackWriter,
) -> (ok: bool)
    requires
        entry_name_in(archive_bytes(*old(archive)), index as int) matches Some(name)
            && encode_utf8(name).len() <= MAX_ENTRY_NAME,
    ensures
        archive_bytes(*final(archive)) == archive_bytes(*old(archive)),
        ok == can_copy(copied_into(*old(into)), archive_bytes(*old(archive)), index as int),
        ok ==> copied_into(*final(into)) == copied_into(*old(into)).push(
            (archive_bytes(*old(archive)), index as int),
        ),
{
    match archive.by_index(index) {
        Ok(entry) => into.writer.raw_copy_file(entry).is_ok(),
        Err(_) => false,
    }
}

/// Whether an archive holds entries of the same names, in the same order, as
/// those that were copied.
pub open spec fn holds_names(bytes: Seq<u8>, copied: Seq<Copied>) -> bool {
    &&& archive_size(bytes) == Some(copied.len())
    &&& forall|i: int|
        0 <= i < copied.len() ==> #[trigger] entry_name_in(bytes, i) == entry_name_in(
            copied[i].0,
            copied[i].1,
        )
}

/// Whether the packed data of an entry lies inside the archive, as far as it is
/// said to go.
pub open spec fn is_whole(bytes: Seq<u8>, index: int) -> bool {
    entry_span_in(bytes, index) matches Some((start, packed, _)) && start + packed <= bytes.len()
}

/// Whether four bytes are enough for the lengths of an entry, packed and unpacked.
pub open spec fn is_modest(bytes: Seq<u8>, index: int) -> bool {
    entry_span_in(bytes, index) matches Some((_, packed, unpacked)) && packed < u32::MAX && unpacked
        < u32::MAX
}

/// Whether an archive holds under the names of copied entries that are whole what
/// those entries hold.
pub open spec fn holds_contents(bytes: Seq<u8>, copied: Seq<Copied>) -> bool {
    forall|i: int|
        0 <= i < copied.len() && is_whole((#[trigger] copied[i]).0, copied[i].1) ==> (entry_name_in(
            copied[i].0,
            copied[i].1,
        ) matches Some(name) ==> entry_bytes_in(bytes, name) == entry_bytes_in(copied[i].0, name))
}

/// The length of the directory at the end of an archive of copied entries, as
/// long as each of them begins within the first four gigabytes: 46 bytes and the
/// name for each.
pub open spec fn directory_len(copied: Seq<Copied>) -> nat
    decreases copied.len(),
{
    if copied.len() == 0 {
        0
    } else {
        directory_len(copied.drop_last()) + 46 + encode_utf8(
            entry_name_in(copied.last().0, copied.last().1)->0,
        ).len()
    }
}

/// Whether, before the 22 bytes that end an archive, there is what looks like the
/// 20 bytes that lead to the record of a large one: they begin with this mark.
pub open spec fn seems_large(bytes: Seq<u8>) -> bool {
    let mark = bytes.len() - 42;
    &&& mark >= 0
    &&& bytes.subrange(mark, mark + 4) == seq![0x50u8, 0x4b, 0x06, 0x07]
}

/// Whether the archive made of copied entries is read as it was written. An archive
/// of exactly 65535 entries has no record of a large one, and yet one is looked for:
/// the end of its last name must not seem to lead to it. An archive of four gigabytes
/// and more must hold no entry that is as large itself, and its directory must not
/// begin exactly at the last place that four bytes can name.
pub open spec fn reads_back(bytes: Seq<u8>, copied: Seq<Copied>) -> bool {
    if bytes.len() < u32::MAX {
        copied.len() == u16::MAX ==> !seems_large(bytes)
    } else {
        &&& copied.len() != u16::MAX
        &&& bytes.len() != u32::MAX + directory_len(copied) + 22
        &&& forall|i: int|
            0 <= i < copied.len() ==> is_modest((#[trigger] copied[i]).0, copied[i].1)
    }
}

/// `zip::ZipWriter::finish`: the bytes of an archive. What they are, is left to
/// the outside crate, and named. Where they read back they are again an archive,
/// which holds the names of the copied entries in their order, and under each what
/// the entry held. Of an entry that is said to be longer than its archive that is
/// not claimed: it can read otherwise in the copy. Nor is it claimed of an archive
/// of four gigabytes or more with an entry of that length: the copy does not keep
/// such a length.
#[verifier::external_body]
pub(crate) fn finish_archive(from: PackWriter) -> (r: Option<Vec<u8>>)
    ensures
        match finished_archive(copied_into(from)) {
            Some(bytes) => r matches Some(got) && got@ == bytes,
            None => r is None,
        },
        r matches Some(got) ==> reads_back(got@, copied_into(from)) ==> holds_names(
            got@,
            copied_into(from),
        ) && holds_contents(got@, copied_into(from)),
{
    from.writer.finish().ok().map(|cursor| cursor.into_inner())
}

} // verus!
