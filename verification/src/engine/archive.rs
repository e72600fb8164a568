//! Zip archives held in memory, read with the `zip` crate.
use vstd::prelude::*;

verus! {

/// `std::io::Cursor`: a reader over bytes in memory.
#[verifier::external_type_specification]
#[verifier::external_body]
#[verifier::reject_recursive_types(T)]
pub struct ExCursor<T>(std::io::Cursor<T>);

/// `zip::ZipArchive`: an archive whose directory has been read.
#[verifier::external_type_specification]
#[verifier::external_body]
#[verifier::reject_recursive_types(R)]
pub struct ExZipArchive<R>(zip::ZipArchive<R>);

/// One entry of an archive: its name, whether it is a plain file, and its
/// content when that can be unpacked.
pub ghost struct EntryModel {
    pub name: Seq<char>,
    pub is_file: bool,
    pub data: Option<Seq<u8>>,
}

/// The entries of an archive in directory order; one that cannot be opened has
/// nothing.
pub uninterp spec fn zip_entries(a: zip::ZipArchive<std::io::Cursor<Vec<u8>>>) -> Seq<Option<EntryModel>>;

/// The entries that the `zip` crate finds in these bytes, or nothing when it
/// does not take them for an archive.
pub uninterp spec fn zip_listing(bytes: Seq<u8>) -> Option<Seq<Option<EntryModel>>>;

/// `zip::ZipArchive::new` on bytes in memory: what it finds depends on the bytes
/// alone. The wording of its error is left unsaid.
#[verifier::external_body]
pub(crate) fn open_zip(bytes: Vec<u8>) -> (r: Result<zip::ZipArchive<std::io::Cursor<Vec<u8>>>, String>)
    ensures
        match r {
            Ok(a) => zip_listing(bytes@) == Some(zip_entries(a)),
            Err(_) => zip_listing(bytes@) is None,
        },
{
    zip::ZipArchive::new(std::io::Cursor::new(bytes)).map_err(|e| e.to_string())
}

/// `zip::ZipArchive::len`: the number of entries.
#[verifier::external_body]
pub(crate) fn zip_len(a: &zip::ZipArchive<std::io::Cursor<Vec<u8>>>) -> (r: usize)
    ensures
        r == zip_entries(*a).len(),
{
    a.len()
}

/// `zip::ZipArchive::by_index`, with the entry's `name` and `is_file`. Opening an
/// entry moves the reader and leaves the entries as they are. The wording of the
/// error is left unsaid.
#[verifier::external_body]
pub(crate) fn zip_head(a: &mut zip::ZipArchive<std::io::Cursor<Vec<u8>>>, i: usize) -> (r: Result<
    (String, bool),
    String,
>)
    requires
        i < zip_entries(*old(a)).len(),
    ensures
        zip_entries(*final(a)) == zip_entries(*old(a)),
        match r {
            Ok((name, is_file)) => zip_entries(*old(a))[i as int] matches Some(e) && e.name == name@
                && e.is_file == is_file,
            Err(_) => zip_entries(*old(a))[i as int] is None,
        },
{
    let entry = a.by_index(i).map_err(|e| e.to_string())?;
    let name = entry.name().map_err(|e| e.to_string())?.into_owned();
    Ok((name, entry.is_file()))
}

/// `zip::ZipArchive::by_index` and `Read::read_to_end` on the entry: its
/// unpacked content. The wording of the error is left unsaid.
#[verifier::external_body]
pub(crate) fn zip_data(a: &mut zip::ZipArchive<std::io::Cursor<Vec<u8>>>, i: usize) -> (r: Result<
    Vec<u8>,
    String,
>)
    requires
        i < zip_entries(*old(a)).len(),
        zip_entries(*old(a))[i as int] is Some,
    ensures
        zip_entries(*final(a)) == zip_entries(*old(a)),
        match r {
            Ok(data) => zip_entries(*old(a))[i as int]->0.data == Some(data@),
            Err(_) => zip_entries(*old(a))[i as int]->0.data is None,
        },
{
    let mut entry = a.by_index(i).map_err(|e| e.to_string())?;
    let mut data = Vec::new();
    std::io::Read::read_to_end(&mut entry, &mut data).map_err(|e| e.to_string())?;
    Ok(data)
}

} // verus!
