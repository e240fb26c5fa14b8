use nuget_packager::cli::Platform;
use nuget_packager::commands::{
    build_target, file_stem, msbuild_release_args, msbuild_release_solution_args, nuget_pack_args,
    nuget_restore_args,
};

#[test]
fn build_target_replaces_periods() {
    assert_eq!(build_target("Foo.Bar.vcxproj"), "Foo_Bar");
    assert_eq!(build_target("Lib.vcxproj"), "Lib");
    assert_eq!(build_target("a.b.c.vcxproj"), "a_b_c");
}

#[test]
fn stems_follow_path_rules() {
    assert_eq!(file_stem("Foo.Bar.vcxproj"), "Foo.Bar");
    assert_eq!(file_stem("foo"), "foo");
    assert_eq!(file_stem(".hidden"), ".hidden");
    assert_eq!(file_stem(".."), "..");
    assert_eq!(file_stem("a."), "a");
    assert_eq!(file_stem(""), "");
}

#[test]
fn restore_arguments() {
    assert_eq!(
        nuget_restore_args("Lib/Lib.vcxproj", "C:/work"),
        vec!["restore", "Lib/Lib.vcxproj", "-SolutionDirectory", "C:/work"]
    );
}

#[test]
fn build_arguments() {
    assert_eq!(
        msbuild_release_args("App.sln", "Foo.Bar.vcxproj", Platform::ARM64),
        vec!["App.sln", "/t:Foo_Bar", "/property:Configuration=Release", "/property:Platform=ARM64"]
    );
    assert_eq!(
        msbuild_release_solution_args("App.sln", Platform::x86),
        vec!["App.sln", "/property:Configuration=Release", "/property:Platform=x86"]
    );
}

#[test]
fn pack_arguments() {
    assert_eq!(
        nuget_pack_args("nuget/Lib.nuspec", "1.2.3"),
        vec!["pack", "nuget/Lib.nuspec", "-version", "1.2.3"]
    );
}
