use vstd::prelude::*;

verus! {

/// The name of the folder, inside the documents directory, that holds the
/// application's data.
pub open spec fn app_folder_name() -> Seq<char> {
    "AIF-BIN Studio"@
}

/// The name of the library folder inside the application's folder.
pub open spec fn library_folder_name() -> Seq<char> {
    "library"@
}

/// Where the documents directory cannot be determined, the library is
/// placed relative to the current directory.
pub open spec fn fallback_base() -> Seq<char> {
    "."@
}

/// The path components of the library folder, from the documents directory
/// (or the fallback) down.
pub open spec fn library_folder_of(documents: Option<Seq<char>>) -> Seq<Seq<char>> {
    let base = match documents {
        Some(d) => d,
        None => fallback_base(),
    };
    seq![base, app_folder_name(), library_folder_name()]
}

/// The suffix that marks a library file: a dot and the extension `aif-bin`.
pub open spec fn library_suffix() -> Seq<char> {
    seq!['.', 'a', 'i', 'f', '-', 'b', 'i', 'n']
}

/// A file name whose extension is exactly `aif-bin`: it ends in the suffix
/// and has at least one character before it (a name that is only the suffix
/// is a hidden file without extension).
pub open spec fn is_library_name(name: Seq<char>) -> bool {
    &&& name.len() > library_suffix().len()
    &&& name.subrange(name.len() - library_suffix().len(), name.len() as int)
        == library_suffix()
}

/// Tells whether a directory entry's file name marks a library file.
pub fn has_library_extension(name: &str) -> (r: bool)
    ensures
        r == is_library_name(name@),
{
    let n = name.unicode_len();
    if n <= 8 {
        return false;
    }
    let s = n - 8;
    let r = name.get_char(s) == '.' && name.get_char(s + 1) == 'a' && name.get_char(s + 2)
        == 'i' && name.get_char(s + 3) == 'f' && name.get_char(s + 4) == '-' && name.get_char(
        s + 5,
    ) == 'b' && name.get_char(s + 6) == 'i' && name.get_char(s + 7) == 'n';
    proof {
        let tail = name@.subrange(s as int, n as int);
        if r {
            assert(tail =~= library_suffix());
        } else {
            if tail == library_suffix() {
                assert(tail[0] == '.' && tail[1] == 'a' && tail[2] == 'i' && tail[3] == 'f'
                    && tail[4] == '-' && tail[5] == 'b' && tail[6] == 'i' && tail[7] == 'n');
            }
        }
    }
    r
}

/// The path components of the library folder: the documents directory, or
/// `.` where it is unknown, then the application's folder and the library
/// folder. The result depends on its argument alone.
pub fn library_folder_parts(documents: Option<String>) -> (r: Vec<String>)
    ensures
        r@.map_values(|s: String| s@) == library_folder_of(
            match documents {
                Some(d) => Some(d@),
                None => None,
            },
        ),
{
    let base = match documents {
        Some(d) => d,
        None => String::from_str("."),
    };
    let mut r: Vec<String> = Vec::new();
    r.push(base);
    r.push(String::from_str("AIF-BIN Studio"));
    r.push(String::from_str("library"));
    assert(r@.map_values(|s: String| s@) =~= library_folder_of(
        match documents {
            Some(d) => Some(d@),
            None => None,
        },
    ));
    r
}

} // verus!
