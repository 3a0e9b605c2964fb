use vstd::prelude::*;

verus! {

/// One file of the library as it is listed: its name with extension, its
/// length in bytes and its modification time in seconds since the Unix epoch
/// (0 where the time could not be read).
#[derive(Clone, Debug)]
pub struct LibraryFile {
    pub name: String,
    pub size: u64,
    pub modified: u64,
}

/// The mathematical value of a [`LibraryFile`].
pub struct LibraryFileView {
    pub name: Seq<char>,
    pub size: u64,
    pub modified: u64,
}

impl View for LibraryFile {
    type V = LibraryFileView;

    open spec fn view(&self) -> LibraryFileView {
        LibraryFileView { name: self.name@, size: self.size, modified: self.modified }
    }
}

/// The views of a sequence of records, in the same order.
pub open spec fn files_view(files: Seq<LibraryFile>) -> Seq<LibraryFileView> {
    files.map_values(|f: LibraryFile| f@)
}

impl LibraryFile {
    pub fn new(name: String, size: u64, modified: u64) -> (r: LibraryFile)
        ensures
            r.name@ == name@,
            r.size == size,
            r.modified == modified,
    {
        LibraryFile { name, size, modified }
    }
}

} // verus!
