use vstd::prelude::*;
use crate::error::{failure_of, ErrorKind, LibraryError};
use crate::listing::{is_listing_of, lemma_entry_recorded, record_of, records_of, DirEntryInfo};
use crate::naming::is_library_name;
use crate::record::LibraryFileView;

verus! {

broadcast use vstd::seq_lib::group_to_multiset_ensures;

/// The contents of the library folder: each file's name and its bytes.
pub type Contents = Map<Seq<char>, Seq<u8>>;

/// A name that stays inside the library folder: no path separator in it.
pub open spec fn is_plain_name(name: Seq<char>) -> bool {
    !name.contains('/') && !name.contains('\\')
}

/// The failure, if any, of an operation that needs its file to exist
/// (read, delete, export).
pub open spec fn presence_verdict(exists: bool) -> Option<ErrorKind> {
    if exists {
        None
    } else {
        Some(ErrorKind::NotFound)
    }
}

/// The failure, if any, of a rename: the source must exist, then the
/// destination must be free.
pub open spec fn rename_verdict(old_exists: bool, new_exists: bool) -> Option<ErrorKind> {
    if !old_exists {
        Some(ErrorKind::NotFound)
    } else if new_exists {
        Some(ErrorKind::AlreadyExists)
    } else {
        None
    }
}

/// The folder after saving `data` under `name`: an existing file of that
/// name is overwritten.
pub open spec fn saved(f: Contents, name: Seq<char>, data: Seq<u8>) -> Contents {
    f.insert(name, data)
}

/// What reading `name` gives.
pub open spec fn read_in(f: Contents, name: Seq<char>) -> Result<Seq<u8>, ErrorKind> {
    match presence_verdict(f.contains_key(name)) {
        Some(k) => Err(k),
        None => Ok(f[name]),
    }
}

/// The folder after deleting `name`, or the failure.
pub open spec fn deleted(f: Contents, name: Seq<char>) -> Result<Contents, ErrorKind> {
    match presence_verdict(f.contains_key(name)) {
        Some(k) => Err(k),
        None => Ok(f.remove(name)),
    }
}

/// The folder after renaming `old_name` to `new_name`, or the failure.
pub open spec fn renamed(f: Contents, old_name: Seq<char>, new_name: Seq<char>) -> Result<
    Contents,
    ErrorKind,
> {
    match rename_verdict(f.contains_key(old_name), f.contains_key(new_name)) {
        Some(k) => Err(k),
        None => Ok(f.remove(old_name).insert(new_name, f[old_name])),
    }
}

/// The files outside the library after exporting `name` to `dest`, or the
/// failure.
pub open spec fn exported(f: Contents, outside: Contents, name: Seq<char>, dest: Seq<char>) -> Result<
    Contents,
    ErrorKind,
> {
    match presence_verdict(f.contains_key(name)) {
        Some(k) => Err(k),
        None => Ok(outside.insert(dest, f[name])),
    }
}

/// The guard of read, delete and export: `Ok` where the file exists, else
/// `NotFound` with its name.
pub fn require_present(name: &str, exists: bool) -> (r: Result<(), LibraryError>)
    ensures
        failure_of(r) == presence_verdict(exists),
        r matches Err(LibraryError::NotFound(n)) ==> n@ == name@,
{
    if exists {
        Ok(())
    } else {
        Err(LibraryError::NotFound(name.to_owned()))
    }
}

/// The guard of rename: `NotFound` with the old name where the source is
/// absent, else `AlreadyExists` with the new name where the destination is
/// taken, else `Ok`.
pub fn check_rename(old_name: &str, new_name: &str, old_exists: bool, new_exists: bool) -> (r:
    Result<(), LibraryError>)
    ensures
        failure_of(r) == rename_verdict(old_exists, new_exists),
        r matches Err(LibraryError::NotFound(n)) ==> n@ == old_name@,
        r matches Err(LibraryError::AlreadyExists(n)) ==> n@ == new_name@,
{
    if !old_exists {
        Err(LibraryError::NotFound(old_name.to_owned()))
    } else if new_exists {
        Err(LibraryError::AlreadyExists(new_name.to_owned()))
    } else {
        Ok(())
    }
}

/// Reading a file right after saving it gives back exactly the saved bytes.
pub proof fn lemma_save_then_read(f: Contents, name: Seq<char>, data: Seq<u8>)
    requires
        is_plain_name(name),
    ensures
        read_in(saved(f, name, data), name) == Ok::<Seq<u8>, ErrorKind>(data),
{
}

/// Once a file is deleted, reading it fails with `NotFound`; so it does where
/// the delete failed because the file was absent.
pub proof fn lemma_delete_then_read(f: Contents, name: Seq<char>)
    ensures
        match deleted(f, name) {
            Ok(g) => read_in(g, name) == Err::<Seq<u8>, ErrorKind>(ErrorKind::NotFound),
            Err(_) => read_in(f, name) == Err::<Seq<u8>, ErrorKind>(ErrorKind::NotFound),
        },
{
}

/// Renaming an existing file to a free name moves its bytes: the old name
/// reads as `NotFound`, the new one gives the old content.
pub proof fn lemma_rename_moves(f: Contents, old_name: Seq<char>, new_name: Seq<char>)
    requires
        f.contains_key(old_name),
        !f.contains_key(new_name),
    ensures
        renamed(f, old_name, new_name) is Ok,
        read_in(renamed(f, old_name, new_name)->Ok_0, old_name) == Err::<Seq<u8>, ErrorKind>(
            ErrorKind::NotFound,
        ),
        read_in(renamed(f, old_name, new_name)->Ok_0, new_name) == Ok::<Seq<u8>, ErrorKind>(
            f[old_name],
        ),
{
}

/// Renaming an existing file onto a taken name fails with `AlreadyExists`,
/// and the folder, with both files' contents, stays as it was.
pub proof fn lemma_rename_onto_existing(f: Contents, old_name: Seq<char>, new_name: Seq<char>)
    requires
        f.contains_key(old_name),
        f.contains_key(new_name),
    ensures
        renamed(f, old_name, new_name) == Err::<Contents, ErrorKind>(ErrorKind::AlreadyExists),
{
}

/// Exporting a file that is not in the library fails with `NotFound` and
/// writes nothing outside it.
pub proof fn lemma_export_missing(f: Contents, outside: Contents, name: Seq<char>, dest: Seq<char>)
    requires
        !f.contains_key(name),
    ensures
        exported(f, outside, name, dest) == Err::<Contents, ErrorKind>(ErrorKind::NotFound),
{
}

/// A directory walk shows the folder: each file appears as an entry of its
/// name whose metadata were read, with the file's length.
pub open spec fn walk_shows(entries: Seq<DirEntryInfo>, f: Contents) -> bool {
    forall|k: Seq<char>|
        #[trigger] f.contains_key(k) ==> exists|i: int|
            0 <= i < entries.len() && #[trigger] entries[i].name@ == k && (
            entries[i].metadata matches Some(m) && m.size == f[k].len())
}

/// After a library file is saved, a listing of the folder holds a record of
/// its name and of the saved length.
pub proof fn lemma_saved_file_listed(
    f: Contents,
    name: Seq<char>,
    data: Seq<u8>,
    entries: Seq<DirEntryInfo>,
    files: Seq<LibraryFileView>,
)
    requires
        is_library_name(name),
        walk_shows(entries, saved(f, name, data)),
        is_listing_of(entries, files),
    ensures
        exists|i: int| 0 <= i < files.len() && files[i].name == name && files[i].size == data.len(),
{
    let g = saved(f, name, data);
    assert(g.contains_key(name));
    let i = choose|i: int|
        0 <= i < entries.len() && #[trigger] entries[i].name@ == name && (
        entries[i].metadata matches Some(m) && m.size == g[name].len());
    lemma_entry_recorded(entries, i);
    let r = record_of(entries[i])->0;
    assert(records_of(entries).to_multiset().count(r) > 0);
    assert(files.contains(r));
    let k = choose|k: int| 0 <= k < files.len() && files[k] == r;
    assert(files[k].name == name && files[k].size == data.len());
}

} // verus!
