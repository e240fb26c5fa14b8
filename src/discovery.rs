//! Finding the files a run works on among the entries of a directory.
//!
//! Listing a directory is left to the caller; these functions take the names
//! of its entries and decide which of them are meant.

use vstd::prelude::*;
use vstd::string::*;

verus! {

/// The name of the directory that holds a package's manifest.
pub const NUGET_DIR: &'static str = "nuget";

/// The name of the file that holds a package's version.
pub const VERSION_FILE: &'static str = "VERSION";

/// Why a lookup that needs exactly one file failed.
#[derive(Debug, Copy, Clone, PartialEq, Eq, Structural)]
pub enum FindError {
    /// No entry matched.
    NotFound,
    /// More than one entry matched.
    TooMany,
}

/// A file name has extension `ext`: it ends in a period followed by `ext`,
/// with a non-empty stem before that period and no period after it.
pub open spec fn has_extension_spec(name: Seq<char>, ext: Seq<char>) -> bool {
    &&& name.len() >= ext.len() + 2
    &&& name[name.len() - ext.len() - 1] == '.'
    &&& name.subrange(name.len() - ext.len(), name.len() as int) == ext
    &&& !ext.contains('.')
}

/// The entries of a listing that have extension `ext`, in listing order.
pub open spec fn with_extension(names: Seq<String>, ext: Seq<char>) -> Seq<String> {
    names.filter(|s: String| has_extension_spec(s@, ext))
}

/// The outcome of a lookup that needs exactly one match of extension `ext`.
pub open spec fn single_with_extension(names: Seq<String>, ext: Seq<char>) -> Result<String, FindError> {
    let found = with_extension(names, ext);
    if found.len() == 0 {
        Err(FindError::NotFound)
    } else if found.len() == 1 {
        Ok(found[0])
    } else {
        Err(FindError::TooMany)
    }
}

/// Tells whether a file name has extension `ext`.
pub fn has_extension(name: &str, ext: &str) -> (r: bool)
    ensures
        r == has_extension_spec(name@, ext@),
{
    let n = name.unicode_len();
    let k = ext.unicode_len();
    if n < 2 || n - 2 < k {
        return false;
    }
    let start = n - k;
    if name.get_char(start - 1) != '.' {
        return false;
    }
    let mut j: usize = 0;
    while j < k
        invariant
            n == name@.len(),
            k == ext@.len(),
            start == n - k,
            j <= k,
            forall|i: int| 0 <= i < j ==> name@[start + i] == #[trigger] ext@[i] && ext@[i] != '.',
        decreases k - j,
    {
        let c = ext.get_char(j);
        if c == '.' || name.get_char(start + j) != c {
            assert(!has_extension_spec(name@, ext@)) by {
                if c == '.' {
                    assert(ext@[j as int] == '.');
                } else {
                    assert(name@.subrange(start as int, n as int)[j as int] == name@[start + j]);
                }
            }
            return false;
        }
        j = j + 1;
    }
    assert(name@.subrange(start as int, n as int) =~= ext@);
    true
}

/// The entries of a listing whose names have extension `ext`, in listing order.
pub fn get_files_with_extension(names: &Vec<String>, ext: &str) -> (r: Vec<String>)
    ensures
        r@ == with_extension(names@, ext@),
{
    let mut found: Vec<String> = Vec::new();
    let mut i: usize = 0;
    while i < names.len()
        invariant
            i <= names@.len(),
            found@ == with_extension(names@.take(i as int), ext@),
        decreases names@.len() - i,
    {
        assert(names@.take(i + 1).drop_last() =~= names@.take(i as int));
        reveal(Seq::filter);
        if has_extension(names[i].as_str(), ext) {
            found.push(names[i].clone());
        }
        i = i + 1;
    }
    assert(names@.take(names@.len() as int) =~= names@);
    found
}

/// The one entry of a listing that has extension `ext`.
pub fn find_single(names: &Vec<String>, ext: &str) -> (r: Result<String, FindError>)
    ensures
        r == single_with_extension(names@, ext@),
{
    let mut found = get_files_with_extension(names, ext);
    if found.len() == 0 {
        Err(FindError::NotFound)
    } else if found.len() > 1 {
        Err(FindError::TooMany)
    } else {
        Ok(found.remove(0))
    }
}

proof fn lemma_none_with_extension(names: Seq<String>, ext: Seq<char>)
    requires
        forall|j: int| 0 <= j < names.len() ==> !has_extension_spec(#[trigger] names[j]@, ext),
    ensures
        with_extension(names, ext).len() == 0,
    decreases names.len(),
{
    reveal(Seq::filter);
    if names.len() > 0 {
        lemma_none_with_extension(names.drop_last(), ext);
    }
}

proof fn lemma_one_with_extension(names: Seq<String>, ext: Seq<char>, i: int)
    requires
        0 <= i < names.len(),
        has_extension_spec(names[i]@, ext),
        forall|j: int| 0 <= j < names.len() && j != i ==> !has_extension_spec(#[trigger] names[j]@, ext),
    ensures
        with_extension(names, ext) == seq![names[i]],
    decreases names.len(),
{
    reveal(Seq::filter);
    let rest = names.drop_last();
    if i == names.len() - 1 {
        lemma_none_with_extension(rest, ext);
        assert(with_extension(names, ext) =~= seq![names[i]]);
    } else {
        lemma_one_with_extension(rest, ext, i);
    }
}

proof fn lemma_some_with_extension(names: Seq<String>, ext: Seq<char>, i: int)
    requires
        0 <= i < names.len(),
        has_extension_spec(names[i]@, ext),
    ensures
        with_extension(names, ext).len() >= 1,
    decreases names.len(),
{
    reveal(Seq::filter);
    if i < names.len() - 1 {
        lemma_some_with_extension(names.drop_last(), ext, i);
    }
}

proof fn lemma_two_with_extension(names: Seq<String>, ext: Seq<char>, i: int, j: int)
    requires
        0 <= i < j < names.len(),
        has_extension_spec(names[i]@, ext),
        has_extension_spec(names[j]@, ext),
    ensures
        with_extension(names, ext).len() >= 2,
    decreases names.len(),
{
    reveal(Seq::filter);
    if j == names.len() - 1 {
        lemma_some_with_extension(names.drop_last(), ext, i);
    } else {
        lemma_two_with_extension(names.drop_last(), ext, i, j);
    }
}

/// A listing with exactly one name of extension `ext` yields that name; one
/// with none yields `NotFound`; one with two or more yields `TooMany`.
pub proof fn lemma_single_lookup(names: Seq<String>, ext: Seq<char>)
    ensures
        forall|i: int|
            0 <= i < names.len() && has_extension_spec(#[trigger] names[i]@, ext) && (forall|j: int|
                0 <= j < names.len() && j != i ==> !has_extension_spec(#[trigger] names[j]@, ext))
                ==> single_with_extension(names, ext) == Ok::<String, FindError>(names[i]),
        (forall|j: int| 0 <= j < names.len() ==> !has_extension_spec(#[trigger] names[j]@, ext))
            ==> single_with_extension(names, ext) == Err::<String, FindError>(FindError::NotFound),
        forall|i: int, j: int|
            0 <= i < j < names.len() && has_extension_spec(#[trigger] names[i]@, ext)
                && has_extension_spec(#[trigger] names[j]@, ext)
                ==> single_with_extension(names, ext) == Err::<String, FindError>(FindError::TooMany),
{
    assert forall|i: int|
        0 <= i < names.len() && has_extension_spec(#[trigger] names[i]@, ext) && (forall|j: int|
            0 <= j < names.len() && j != i ==> !has_extension_spec(#[trigger] names[j]@, ext))
            implies single_with_extension(names, ext) == Ok::<String, FindError>(names[i]) by {
        lemma_one_with_extension(names, ext, i);
    }
    if forall|j: int| 0 <= j < names.len() ==> !has_extension_spec(#[trigger] names[j]@, ext) {
        lemma_none_with_extension(names, ext);
    }
    assert forall|i: int, j: int|
        0 <= i < j < names.len() && has_extension_spec(#[trigger] names[i]@, ext)
            && has_extension_spec(#[trigger] names[j]@, ext)
            implies single_with_extension(names, ext) == Err::<String, FindError>(FindError::TooMany) by {
        lemma_two_with_extension(names, ext, i, j);
    }
}

/// The solution file among the entries of the working directory.
pub fn get_local_solution(names: &Vec<String>) -> (r: Result<String, FindError>)
    ensures
        r == single_with_extension(names@, "sln"@),
{
    find_single(names, "sln")
}

/// The project file among the entries of a project directory.
pub fn get_project_file(names: &Vec<String>) -> (r: Result<String, FindError>)
    ensures
        r == single_with_extension(names@, "vcxproj"@),
{
    find_single(names, "vcxproj")
}

/// The manifest among the entries of a packaging directory.
pub fn get_nugetpkg_nuspec(names: &Vec<String>) -> (r: Result<String, FindError>)
    ensures
        r == single_with_extension(names@, "nuspec"@),
{
    find_single(names, "nuspec")
}

/// An entry of the working directory, as far as the choice of project
/// directories depends on it.
pub struct DirEntry {
    pub name: String,
    /// The entry is a directory.
    pub is_dir: bool,
    /// The entry holds a directory named [`NUGET_DIR`].
    pub has_nuget_dir: bool,
}

/// An entry is a project directory: a directory with a packaging directory.
pub open spec fn is_project_dir(e: DirEntry) -> bool {
    e.is_dir && e.has_nuget_dir
}

/// The names of the project directories among a listing, in listing order.
pub open spec fn project_dirs(entries: Seq<DirEntry>) -> Seq<String> {
    entries.filter(|e: DirEntry| is_project_dir(e)).map_values(|e: DirEntry| e.name)
}

/// The names of the project directories among the entries of the working
/// directory.
pub fn get_project_dirs_with_nuget_dirs(entries: &Vec<DirEntry>) -> (r: Vec<String>)
    ensures
        r@ == project_dirs(entries@),
{
    let mut dirs: Vec<String> = Vec::new();
    let mut i: usize = 0;
    while i < entries.len()
        invariant
            i <= entries@.len(),
            dirs@ == project_dirs(entries@.take(i as int)),
        decreases entries@.len() - i,
    {
        assert(entries@.take(i + 1).drop_last() =~= entries@.take(i as int));
        reveal(Seq::filter);
        let ghost before = entries@.take(i as int).filter(|e: DirEntry| is_project_dir(e));
        if entries[i].is_dir && entries[i].has_nuget_dir {
            dirs.push(entries[i].name.clone());
            assert(before.push(entries@[i as int]).map_values(|e: DirEntry| e.name)
                =~= before.map_values(|e: DirEntry| e.name).push(entries@[i as int].name));
        }
        i = i + 1;
    }
    assert(entries@.take(entries@.len() as int) =~= entries@);
    dirs
}

/// The white space characters of Unicode (the property White_Space), which
/// surround a version.
pub open spec fn is_white_space(c: char) -> bool {
    let u = c as u32;
    ||| 0x09 <= u <= 0x0D
    ||| u == 0x20
    ||| u == 0x85
    ||| u == 0xA0
    ||| u == 0x1680
    ||| 0x2000 <= u <= 0x200A
    ||| u == 0x2028
    ||| u == 0x2029
    ||| u == 0x202F
    ||| u == 0x205F
    ||| u == 0x3000
}

/// A string without its leading white space.
pub open spec fn trim_start_spec(s: Seq<char>) -> Seq<char>
    decreases s.len(),
{
    if s.len() > 0 && is_white_space(s[0]) {
        trim_start_spec(s.drop_first())
    } else {
        s
    }
}

/// A string without its trailing white space.
pub open spec fn trim_end_spec(s: Seq<char>) -> Seq<char>
    decreases s.len(),
{
    if s.len() > 0 && is_white_space(s.last()) {
        trim_end_spec(s.drop_last())
    } else {
        s
    }
}

/// A string without its surrounding white space.
pub open spec fn trim_spec(s: Seq<char>) -> Seq<char> {
    trim_end_spec(trim_start_spec(s))
}

fn is_white_space_char(c: char) -> (r: bool)
    ensures
        r == is_white_space(c),
{
    let u = c as u32;
    (0x09 <= u && u <= 0x0D) || u == 0x20 || u == 0x85 || u == 0xA0 || u == 0x1680 || (0x2000 <= u
        && u <= 0x200A) || u == 0x2028 || u == 0x2029 || u == 0x202F || u == 0x205F || u == 0x3000
}

/// The package version held by the text of a version file: the text without
/// its surrounding white space.
pub fn get_nugetpkg_version(text: &str) -> (r: String)
    ensures
        r@ == trim_spec(text@),
{
    let n = text.unicode_len();
    let mut lo: usize = 0;
    assert(text@.subrange(0, n as int) =~= text@);
    while lo < n && is_white_space_char(text.get_char(lo))
        invariant
            n == text@.len(),
            lo <= n,
            trim_start_spec(text@.subrange(lo as int, n as int)) == trim_start_spec(text@),
        decreases n - lo,
    {
        assert(text@.subrange(lo as int, n as int).drop_first() =~= text@.subrange(lo + 1, n as int));
        lo = lo + 1;
    }
    assert(trim_start_spec(text@.subrange(lo as int, n as int)) == text@.subrange(lo as int, n as int));
    let mut hi: usize = n;
    while hi > lo && is_white_space_char(text.get_char(hi - 1))
        invariant
            n == text@.len(),
            lo <= hi <= n,
            trim_end_spec(text@.subrange(lo as int, hi as int)) == trim_spec(text@),
        decreases hi - lo,
    {
        assert(text@.subrange(lo as int, hi as int).drop_last() =~= text@.subrange(lo as int, hi - 1));
        hi = hi - 1;
    }
    String::from_str(text.substring_char(lo, hi))
}

} // verus!
