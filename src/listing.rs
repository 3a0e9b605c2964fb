use vstd::prelude::*;
use crate::naming::{has_library_extension, is_library_name};
use crate::record::{files_view, LibraryFile, LibraryFileView};

verus! {

broadcast use vstd::seq_lib::group_to_multiset_ensures;

/// What the file system reports of an entry whose metadata could be read:
/// its length, and its modification time in whole seconds since the Unix
/// epoch where that time is known.
#[derive(Clone, Copy, Debug)]
pub struct EntryMetadata {
    pub size: u64,
    pub modified: Option<u64>,
}

/// One entry of the library folder as the directory walk found it: its file
/// name, and its metadata unless reading them failed.
#[derive(Debug)]
pub struct DirEntryInfo {
    pub name: String,
    pub metadata: Option<EntryMetadata>,
}

/// The record an entry contributes to a listing: one for each entry that
/// carries the library extension and whose metadata could be read. An
/// unknown modification time counts as 0.
pub open spec fn record_of(e: DirEntryInfo) -> Option<LibraryFileView> {
    match e.metadata {
        Some(m) => if is_library_name(e.name@) {
            Some(
                LibraryFileView {
                    name: e.name@,
                    size: m.size,
                    modified: match m.modified {
                        Some(t) => t,
                        None => 0,
                    },
                },
            )
        } else {
            None
        },
        None => None,
    }
}

/// The records of a directory walk, in the order of the walk.
pub open spec fn records_of(entries: Seq<DirEntryInfo>) -> Seq<LibraryFileView>
    decreases entries.len(),
{
    if entries.len() == 0 {
        Seq::empty()
    } else {
        let front = records_of(entries.drop_last());
        match record_of(entries.last()) {
            Some(r) => front.push(r),
            None => front,
        }
    }
}

/// Newest first: no record is followed by a more recently modified one.
pub open spec fn is_newest_first(files: Seq<LibraryFileView>) -> bool {
    forall|i: int, j: int| 0 <= i < j < files.len() ==> files[i].modified >= files[j].modified
}

/// A listing of a directory walk holds exactly the walk's records, each as
/// often as the walk gave it, ordered newest first.
pub open spec fn is_listing_of(entries: Seq<DirEntryInfo>, files: Seq<LibraryFileView>) -> bool {
    &&& files.to_multiset() == records_of(entries).to_multiset()
    &&& is_newest_first(files)
}

/// The record of one entry, if it contributes one.
pub fn entry_record(e: &DirEntryInfo) -> (r: Option<LibraryFile>)
    ensures
        match r {
            Some(f) => record_of(*e) == Some(f@),
            None => record_of(*e) is None,
        },
{
    match e.metadata {
        Some(m) => {
            if has_library_extension(e.name.as_str()) {
                let modified: u64 = match m.modified {
                    Some(t) => t,
                    None => 0,
                };
                Some(LibraryFile::new(e.name.clone(), m.size, modified))
            } else {
                None
            }
        },
        None => None,
    }
}

/// Puts `f` into a newest-first list, after every record at least as new,
/// so that records of equal time keep the order in which they came.
pub fn insert_newest_first(files: &mut Vec<LibraryFile>, f: LibraryFile)
    requires
        is_newest_first(files_view(old(files)@)),
    ensures
        is_newest_first(files_view(final(files)@)),
        files_view(final(files)@).to_multiset() == files_view(old(files)@).to_multiset().insert(
            f@,
        ),
{
    let ghost before = files_view(files@);
    let mut p: usize = 0;
    while p < files.len() && files[p].modified >= f.modified
        invariant
            p <= files@.len(),
            files_view(files@) == before,
            forall|k: int| 0 <= k < p ==> files@[k].modified >= f.modified,
        decreases files@.len() - p,
    {
        p = p + 1;
    }
    files.insert(p, f);
    proof {
        let after = files_view(files@);
        assert(after =~= before.insert(p as int, f@));
        vstd::seq_lib::to_multiset_insert(before, p as int, f@);
        assert forall|i: int, j: int| 0 <= i < j < after.len() implies after[i].modified
            >= after[j].modified by {
            if j > p && i <= p {
                assert(i < p ==> before[i].modified >= f.modified);
                assert(p < before.len() ==> before[p as int].modified < f.modified);
                assert(before[p as int].modified >= before[j - 1].modified || j - 1 == p);
            }
        }
    }
}

/// The listing of the library folder from what a directory walk found:
/// the entries that carry the library extension and whose metadata could be
/// read, newest first. Records of equal time keep the order of the walk.
pub fn build_listing(entries: &Vec<DirEntryInfo>) -> (r: Vec<LibraryFile>)
    ensures
        is_listing_of(entries@, files_view(r@)),
{
    let mut files: Vec<LibraryFile> = Vec::new();
    let mut i: usize = 0;
    while i < entries.len()
        invariant
            i <= entries@.len(),
            is_newest_first(files_view(files@)),
            files_view(files@).to_multiset() == records_of(entries@.subrange(0, i as int)).to_multiset(),
        decreases entries@.len() - i,
    {
        proof {
            assert(entries@.subrange(0, i + 1).drop_last() =~= entries@.subrange(0, i as int));
        }
        match entry_record(&entries[i]) {
            Some(f) => insert_newest_first(&mut files, f),
            None => {},
        }
        i = i + 1;
    }
    assert(entries@.subrange(0, i as int) =~= entries@);
    files
}

/// Every record of a directory walk names a library file.
pub proof fn lemma_records_are_library_files(entries: Seq<DirEntryInfo>)
    ensures
        forall|i: int|
            0 <= i < records_of(entries).len() ==> is_library_name(
                #[trigger] records_of(entries)[i].name,
            ),
    decreases entries.len(),
{
    if entries.len() > 0 {
        lemma_records_are_library_files(entries.drop_last());
        let front = records_of(entries.drop_last());
        match record_of(entries.last()) {
            Some(r) => {
                assert forall|i: int| 0 <= i < front.len() + 1 implies is_library_name(
                    #[trigger] front.push(r)[i].name,
                ) by {
                    if i < front.len() {
                        assert(front.push(r)[i] == front[i]);
                    }
                }
            },
            None => {},
        }
    }
}

/// An entry that contributes a record has that record in the walk's records.
pub proof fn lemma_entry_recorded(entries: Seq<DirEntryInfo>, i: int)
    requires
        0 <= i < entries.len(),
        record_of(entries[i]) is Some,
    ensures
        records_of(entries).contains(record_of(entries[i])->0),
    decreases entries.len(),
{
    let front = records_of(entries.drop_last());
    if i < entries.len() - 1 {
        lemma_entry_recorded(entries.drop_last(), i);
        let k = choose|k: int| 0 <= k < front.len() && front[k] == record_of(entries[i])->0;
        assert(records_of(entries)[k] == front[k]);
    } else {
        assert(records_of(entries) == front.push(record_of(entries[i])->0));
        assert(records_of(entries)[front.len() as int] == record_of(entries[i])->0);
    }
}

/// A listing holds library files only: an entry without the `.aif-bin`
/// extension never appears in it.
pub proof fn lemma_listing_only_library_files(
    entries: Seq<DirEntryInfo>,
    files: Seq<LibraryFileView>,
)
    requires
        is_listing_of(entries, files),
    ensures
        forall|i: int| 0 <= i < files.len() ==> is_library_name(#[trigger] files[i].name),
{
    lemma_records_are_library_files(entries);
    assert forall|i: int| 0 <= i < files.len() implies is_library_name(
        #[trigger] files[i].name,
    ) by {
        assert(files.to_multiset().count(files[i]) > 0);
        assert(records_of(entries).contains(files[i]));
    }
}

/// Where no two records share a modification time (files written one after
/// another, each later than the last), the listing is strictly newest first.
pub proof fn lemma_distinct_times_strictly_newest_first(
    entries: Seq<DirEntryInfo>,
    files: Seq<LibraryFileView>,
)
    requires
        is_listing_of(entries, files),
        forall|i: int, j: int|
            0 <= i < j < records_of(entries).len() ==> records_of(entries)[i].modified
                != records_of(entries)[j].modified,
    ensures
        forall|i: int, j: int| 0 <= i < j < files.len() ==> files[i].modified > files[j].modified,
{
    let recs = records_of(entries);
    assert(recs.no_duplicates()) by {
        assert forall|i: int, j: int| 0 <= i < recs.len() && 0 <= j < recs.len() && i != j implies recs[i]
            != recs[j] by {
            if i < j {
                assert(recs[i].modified != recs[j].modified);
            } else {
                assert(recs[j].modified != recs[i].modified);
            }
        }
    }
    recs.lemma_multiset_has_no_duplicates();
    files.lemma_multiset_has_no_duplicates_conv();
    assert forall|i: int, j: int| 0 <= i < j < files.len() implies files[i].modified
        > files[j].modified by {
        assert(files[i].modified >= files[j].modified);
        if files[i].modified == files[j].modified {
            assert(files.to_multiset().count(files[i]) > 0);
            assert(files.to_multiset().count(files[j]) > 0);
            assert(recs.contains(files[i]));
            assert(recs.contains(files[j]));
            let p = choose|p: int| 0 <= p < recs.len() && recs[p] == files[i];
            let q = choose|q: int| 0 <= q < recs.len() && recs[q] == files[j];
            if p < q {
                assert(recs[p].modified != recs[q].modified);
            } else if q < p {
                assert(recs[q].modified != recs[p].modified);
            }
            assert(files[i] == files[j]);
        }
    }
}

} // verus!
