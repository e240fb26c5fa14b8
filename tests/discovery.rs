use nuget_packager::discovery::{
    find_single, get_files_with_extension, get_local_solution, get_nugetpkg_nuspec,
    get_nugetpkg_version, get_project_dirs_with_nuget_dirs, get_project_file, has_extension,
    DirEntry, FindError,
};

fn names(list: &[&str]) -> Vec<String> {
    list.iter().map(|s| s.to_string()).collect()
}

#[test]
fn extension_matches_like_a_path() {
    assert!(has_extension("App.sln", "sln"));
    assert!(has_extension("a.b.sln", "sln"));
    assert!(has_extension("a.", ""));
    assert!(!has_extension(".sln", "sln"));
    assert!(!has_extension("sln", "sln"));
    assert!(!has_extension("App.SLN", "sln"));
    assert!(!has_extension("App.sln.bak", "sln"));
    assert!(!has_extension("Appsln", "sln"));
    assert!(!has_extension("a.b.c", "b.c"));
    assert!(!has_extension("", ""));
}

#[test]
fn files_with_extension_keep_listing_order() {
    let found = get_files_with_extension(&names(&["b.sln", "x.txt", "a.sln", "sln", "c.sln.old"]), "sln");
    assert_eq!(found, names(&["b.sln", "a.sln"]));
}

#[test]
fn one_solution_is_found() {
    assert_eq!(get_local_solution(&names(&["App.sln", "Lib", "README.md"])), Ok("App.sln".to_string()));
}

#[test]
fn no_solution_is_not_found() {
    assert_eq!(get_local_solution(&names(&["Lib", "README.md"])), Err(FindError::NotFound));
    assert_eq!(get_local_solution(&names(&[])), Err(FindError::NotFound));
}

#[test]
fn two_solutions_are_too_many() {
    assert_eq!(get_local_solution(&names(&["A.sln", "B.sln"])), Err(FindError::TooMany));
}

#[test]
fn project_and_manifest_lookups() {
    assert_eq!(get_project_file(&names(&["Lib.vcxproj", "Lib.vcxproj.filters", "nuget"])), Ok("Lib.vcxproj".to_string()));
    assert_eq!(get_project_file(&names(&["a.vcxproj", "b.vcxproj"])), Err(FindError::TooMany));
    assert_eq!(get_nugetpkg_nuspec(&names(&["Lib.nuspec", "VERSION"])), Ok("Lib.nuspec".to_string()));
    assert_eq!(get_nugetpkg_nuspec(&names(&["VERSION"])), Err(FindError::NotFound));
    assert_eq!(find_single(&names(&["x.y", "z.y"]), "y"), Err(FindError::TooMany));
}

fn entry(name: &str, is_dir: bool, has_nuget_dir: bool) -> DirEntry {
    DirEntry { name: name.to_string(), is_dir, has_nuget_dir }
}

#[test]
fn project_dirs_are_directories_with_packaging_dirs() {
    let entries = vec![
        entry("Lib", true, true),
        entry("App.sln", false, false),
        entry("Docs", true, false),
        entry("odd", false, true),
        entry("Core", true, true),
    ];
    assert_eq!(get_project_dirs_with_nuget_dirs(&entries), names(&["Lib", "Core"]));
    assert!(get_project_dirs_with_nuget_dirs(&vec![]).is_empty());
}

#[test]
fn version_is_trimmed() {
    assert_eq!(get_nugetpkg_version("1.2.3"), "1.2.3");
    assert_eq!(get_nugetpkg_version("1.2.3\n"), "1.2.3");
    assert_eq!(get_nugetpkg_version(" \t1.2.3-beta \r\n"), "1.2.3-beta");
    assert_eq!(get_nugetpkg_version("  \n"), "");
    assert_eq!(get_nugetpkg_version(""), "");
    assert_eq!(get_nugetpkg_version("1 2"), "1 2");
}

#[test]
fn version_is_trimmed_of_unicode_white_space() {
    assert_eq!(get_nugetpkg_version("1.2.3\u{0B}"), "1.2.3");
    assert_eq!(get_nugetpkg_version("\u{A0}\u{3000}1.2.3\u{85}\u{2029}"), "1.2.3");
    assert_eq!(get_nugetpkg_version("\u{2000}\u{200A}\u{1680}\u{202F}\u{205F}\u{2028}"), "");
    assert_eq!(get_nugetpkg_version("\u{200B}1.2.3"), "\u{200B}1.2.3");
    for text in ["1.2.3\u{0B}", " 1.0 \n", "\u{A0}x\u{3000}", "\u{1F}v\u{1F}", "\u{180E}v"] {
        assert_eq!(get_nugetpkg_version(text), text.trim(), "text {:?}", text);
    }
}
