//! The argument lists handed to the external tools.

use vstd::prelude::*;
use vstd::string::*;
use crate::cli::{Platform, platform_name};

verus! {

/// The program that restores dependencies and creates packages.
pub const NUGET: &'static str = "nuget";

/// The program that builds a solution.
pub const MSBUILD: &'static str = "msbuild";

/// The text of each argument in a list.
pub open spec fn texts(v: Seq<String>) -> Seq<Seq<char>> {
    v.map_values(|s: String| s@)
}

/// The index of the last period of a string, or -1 where it has none.
pub open spec fn last_dot(s: Seq<char>) -> int
    decreases s.len(),
{
    if s.len() == 0 {
        -1
    } else if s.last() == '.' {
        s.len() - 1
    } else {
        last_dot(s.drop_last())
    }
}

/// The name of a file without its extension. A name whose only period leads
/// it, and the name `..`, have no extension.
pub open spec fn file_stem_spec(name: Seq<char>) -> Seq<char> {
    if name =~= seq!['.', '.'] || last_dot(name) <= 0 {
        name
    } else {
        name.subrange(0, last_dot(name))
    }
}

/// A string with each period replaced by an underscore.
pub open spec fn dots_to_underscores(s: Seq<char>) -> Seq<char> {
    s.map_values(|c: char| if c == '.' { '_' } else { c })
}

/// The build target of a project file: its stem with each period replaced
/// by an underscore.
pub open spec fn build_target_spec(project_file_name: Seq<char>) -> Seq<char> {
    dots_to_underscores(file_stem_spec(project_file_name))
}

proof fn lemma_last_dot_bounds(s: Seq<char>)
    ensures
        -1 <= last_dot(s) < s.len(),
        last_dot(s) >= 0 ==> s[last_dot(s)] == '.',
    decreases s.len(),
{
    if s.len() > 0 && s.last() != '.' {
        lemma_last_dot_bounds(s.drop_last());
    }
}

/// The stem of a file name: the name without its extension.
pub fn file_stem(name: &str) -> (r: String)
    ensures
        r@ == file_stem_spec(name@),
{
    let n = name.unicode_len();
    if n == 2 && name.get_char(0) == '.' && name.get_char(1) == '.' {
        assert(name@ =~= seq!['.', '.']);
        return String::from_str(name);
    }
    let mut i: usize = n;
    assert(name@.subrange(0, n as int) =~= name@);
    while i > 0 && name.get_char(i - 1) != '.'
        invariant
            n == name@.len(),
            i <= n,
            last_dot(name@.subrange(0, i as int)) == last_dot(name@),
        decreases i,
    {
        assert(name@.subrange(0, i as int).drop_last() =~= name@.subrange(0, i - 1));
        i = i - 1;
    }
    proof {
        lemma_last_dot_bounds(name@);
    }
    if i <= 1 {
        String::from_str(name)
    } else {
        String::from_str(name.substring_char(0, i - 1))
    }
}

/// The build target of a project file, from the file's name.
pub fn build_target(project_file_name: &str) -> (r: String)
    ensures
        r@ == build_target_spec(project_file_name@),
{
    let stem = file_stem(project_file_name);
    let s = stem.as_str();
    let n = s.unicode_len();
    let mut target = String::new();
    let mut j: usize = 0;
    while j < n
        invariant
            n == s@.len(),
            s@ == file_stem_spec(project_file_name@),
            j <= n,
            target@ == dots_to_underscores(s@.subrange(0, j as int)),
        decreases n - j,
    {
        let ghost before = target@;
        if s.get_char(j) == '.' {
            target.append("_");
            proof {
                reveal_strlit("_");
            }
            assert(target@ =~= before.push('_'));
        } else {
            target.append(s.substring_char(j, j + 1));
            assert(target@ =~= before.push(s@[j as int]));
        }
        assert(dots_to_underscores(s@.subrange(0, j + 1)) =~= dots_to_underscores(s@.subrange(0, j as int)).push(
            if s@[j as int] == '.' { '_' } else { s@[j as int] },
        ));
        j = j + 1;
    }
    assert(s@.subrange(0, n as int) =~= s@);
    target
}

/// The arguments that restore a project's dependencies:
/// `restore <project> -SolutionDirectory <solution_dir>`.
pub fn nuget_restore_args(project: &str, solution_dir: &str) -> (r: Vec<String>)
    ensures
        texts(r@) == seq!["restore"@, project@, "-SolutionDirectory"@, solution_dir@],
{
    let mut args: Vec<String> = Vec::new();
    args.push(String::from_str("restore"));
    args.push(String::from_str(project));
    args.push(String::from_str("-SolutionDirectory"));
    args.push(String::from_str(solution_dir));
    assert(texts(args@) =~= seq!["restore"@, project@, "-SolutionDirectory"@, solution_dir@]);
    args
}

/// The arguments that build one project of a solution in its release
/// configuration for one platform: `<solution> /t:<target>
/// /property:Configuration=Release /property:Platform=<platform>`.
pub fn msbuild_release_args(solution: &str, project_file_name: &str, platform: Platform) -> (r: Vec<
    String,
>)
    ensures
        texts(r@) == seq![
            solution@,
            "/t:"@ + build_target_spec(project_file_name@),
            "/property:Configuration=Release"@,
            "/property:Platform="@ + platform_name(platform),
        ],
{
    let target = build_target(project_file_name);
    let mut args: Vec<String> = Vec::new();
    args.push(String::from_str(solution));
    args.push(String::from_str("/t:").concat(target.as_str()));
    args.push(String::from_str("/property:Configuration=Release"));
    args.push(String::from_str("/property:Platform=").concat(platform.as_str()));
    assert(texts(args@) =~= seq![
        solution@,
        "/t:"@ + build_target_spec(project_file_name@),
        "/property:Configuration=Release"@,
        "/property:Platform="@ + platform_name(platform),
    ]);
    args
}

/// The arguments that build a whole solution in its release configuration
/// for one platform: `<solution> /property:Configuration=Release
/// /property:Platform=<platform>`.
pub fn msbuild_release_solution_args(solution: &str, platform: Platform) -> (r: Vec<String>)
    ensures
        texts(r@) == seq![
            solution@,
            "/property:Configuration=Release"@,
            "/property:Platform="@ + platform_name(platform),
        ],
{
    let mut args: Vec<String> = Vec::new();
    args.push(String::from_str(solution));
    args.push(String::from_str("/property:Configuration=Release"));
    args.push(String::from_str("/property:Platform=").concat(platform.as_str()));
    assert(texts(args@) =~= seq![
        solution@,
        "/property:Configuration=Release"@,
        "/property:Platform="@ + platform_name(platform),
    ]);
    args
}

/// The arguments that create a package from a manifest:
/// `pack <manifest> -version <version>`.
pub fn nuget_pack_args(manifest: &str, version: &str) -> (r: Vec<String>)
    ensures
        texts(r@) == seq!["pack"@, manifest@, "-version"@, version@],
{
    let mut args: Vec<String> = Vec::new();
    args.push(String::from_str("pack"));
    args.push(String::from_str(manifest));
    args.push(String::from_str("-version"));
    args.push(String::from_str(version));
    assert(texts(args@) =~= seq!["pack"@, manifest@, "-version"@, version@]);
    args
}

} // verus!
