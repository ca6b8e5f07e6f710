//! The ZIP layer: the `zip` crate opens the archive and reads its entries.
//!
//! An open archive is modelled as the map from entry names to what reading the entry
//! gives (`zip_entries`), together with the entry names in the order of the central
//! directory (`zip_names`).  Reading an entry does not change that map: `by_name` looks
//! the name up in the central directory and seeks to the entry's data every time.
use vstd::prelude::*;

verus! {

#[verifier::external_type_specification]
#[verifier::external_body]
#[verifier::reject_recursive_types(R)]
pub struct ExZipArchive<R>(zip::ZipArchive<R>);

#[verifier::external_type_specification]
#[verifier::external_body]
#[verifier::reject_recursive_types(T)]
pub struct ExCursor<T>(std::io::Cursor<T>);

/// What reading an entry of the archive gives (mathematical view).
pub enum EntryRead {
    /// `by_name` failed: no such entry, or one that cannot be opened (encrypted,
    /// unsupported compression, bad header).
    Unavailable,
    /// The entry was found but reading it as UTF-8 text failed (message).
    Failed(Seq<char>),
    /// The entry's text.
    Text(Seq<char>),
}

/// What reading an entry of the archive gives.
pub enum EntryContent {
    Unavailable,
    Failed(String),
    Text(String),
}

impl View for EntryContent {
    type V = EntryRead;

    open spec fn view(&self) -> EntryRead {
        match self {
            EntryContent::Unavailable => EntryRead::Unavailable,
            EntryContent::Failed(m) => EntryRead::Failed(m@),
            EntryContent::Text(t) => EntryRead::Text(t@),
        }
    }
}

/// What `zip::ZipArchive::new` makes of `bytes`: the entries of the archive (each
/// with what reading it gives) and their names in central-directory order, or the
/// message of the error.
pub uninterp spec fn zip_open_result(bytes: Seq<u8>) -> Result<(Map<Seq<char>, EntryRead>, Seq<Seq<char>>), Seq<char>>;

/// The entries of an open archive, each with what reading it gives.
pub uninterp spec fn zip_entries(a: zip::ZipArchive<std::io::Cursor<Vec<u8>>>) -> Map<Seq<char>, EntryRead>;

/// The names of the entries of an open archive, in central-directory order.
pub uninterp spec fn zip_names(a: zip::ZipArchive<std::io::Cursor<Vec<u8>>>) -> Seq<Seq<char>>;

/// What reading the entry `name` gives; a name that is not in the map is unavailable.
pub open spec fn entry_of(entries: Map<Seq<char>, EntryRead>, name: Seq<char>) -> EntryRead {
    if entries.contains_key(name) {
        entries[name]
    } else {
        EntryRead::Unavailable
    }
}

/// Calls `zip::ZipArchive::new` on a cursor over a copy of `bytes`; an error becomes
/// its message.  Claimed: the outcome is `zip_open_result(bytes)`, and a name that is
/// not among the archive's names cannot be read (`by_name` looks names up in the same
/// table that lists them).
#[verifier::external_body]
pub(crate) fn zip_open(bytes: &[u8]) -> (r: Result<zip::ZipArchive<std::io::Cursor<Vec<u8>>>, String>)
    ensures
        match r {
            Ok(a) => {
                &&& zip_open_result(bytes@) == Ok::<(Map<Seq<char>, EntryRead>, Seq<Seq<char>>), Seq<char>>(
                    (zip_entries(a), zip_names(a)),
                )
                &&& forall|k: Seq<char>| !zip_names(a).contains(k) ==> entry_of(zip_entries(a), k) is Unavailable
            },
            Err(m) => zip_open_result(bytes@) == Err::<(Map<Seq<char>, EntryRead>, Seq<Seq<char>>), Seq<char>>(m@),
        },
{
    match zip::ZipArchive::new(std::io::Cursor::new(bytes.to_vec())) {
        Ok(a) => Ok(a),
        Err(e) => Err(e.to_string()),
    }
}

/// Calls `zip::ZipArchive::by_name` and reads the entry it returns with
/// `std::io::Read::read_to_string`.  A failing `by_name` gives `Unavailable`, a failing
/// read the message of its I/O error.  Claimed: the outcome is the entry's value in
/// `zip_entries`, and the map and the names are the same afterwards.
#[verifier::external_body]
pub(crate) fn zip_read_entry(a: &mut zip::ZipArchive<std::io::Cursor<Vec<u8>>>, name: &str) -> (r: EntryContent)
    ensures
        r@ == entry_of(zip_entries(*old(a)), name@),
        zip_entries(*final(a)) == zip_entries(*old(a)),
        zip_names(*final(a)) == zip_names(*old(a)),
{
    match a.by_name(name) {
        Err(_) => EntryContent::Unavailable,
        Ok(mut file) => {
            let mut contents = String::new();
            match std::io::Read::read_to_string(&mut file, &mut contents) {
                Ok(_) => EntryContent::Text(contents),
                Err(e) => EntryContent::Failed(e.to_string()),
            }
        },
    }
}

/// Calls `zip::ZipArchive::len`: the number of entries.
#[verifier::external_body]
pub(crate) fn zip_len(a: &zip::ZipArchive<std::io::Cursor<Vec<u8>>>) -> (n: usize)
    ensures
        n == zip_names(*a).len(),
{
    a.len()
}

/// Calls `zip::ZipArchive::name_for_index`, which gives the name of entry `i` for every
/// index below `len()`.
#[verifier::external_body]
pub(crate) fn zip_name_at(a: &zip::ZipArchive<std::io::Cursor<Vec<u8>>>, i: usize) -> (name: String)
    requires
        i < zip_names(*a).len(),
    ensures
        name@ == zip_names(*a)[i as int],
{
    a.name_for_index(i).unwrap_or_default().to_owned()
}

} // verus!
