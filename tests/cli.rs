use nuget_packager::cli::{Args, Platform};

#[test]
fn parse_accepts_every_platform_in_any_case() {
    let cases = [
        ("x64", Platform::x64),
        ("X64", Platform::x64),
        ("x86", Platform::x86),
        ("X86", Platform::x86),
        ("ARM", Platform::ARM),
        ("arm", Platform::ARM),
        ("aRm", Platform::ARM),
        ("ARM64", Platform::ARM64),
        ("arm64", Platform::ARM64),
        ("Arm64", Platform::ARM64),
    ];
    for (token, expected) in cases {
        assert_eq!(Platform::parse(token), Ok(expected), "token {}", token);
    }
}

#[test]
fn parse_rejects_other_tokens() {
    for token in ["", "x", "x65", "arm32", "ARM64 ", " x64", "amd64", "x86_64", "ａｒｍ"] {
        let err = Platform::parse(token).unwrap_err();
        assert_eq!(
            err.message(),
            "Invalid resolution value! Expecting: x86, x64, ARM or ARM64.",
            "token {:?}",
            token
        );
    }
}

#[test]
fn parse_round_trips_canonical_names() {
    for p in [Platform::x64, Platform::x86, Platform::ARM64, Platform::ARM] {
        assert_eq!(Platform::parse(p.as_str()), Ok(p));
    }
}

#[test]
fn canonical_names() {
    assert_eq!(Platform::x64.as_str(), "x64");
    assert_eq!(Platform::x86.as_str(), "x86");
    assert_eq!(Platform::ARM.as_str(), "ARM");
    assert_eq!(Platform::ARM64.as_str(), "ARM64");
}

fn args(all: bool, restore: bool, build: Vec<Platform>, pack: bool) -> Args {
    Args { dir: None, all, restore, build, pack }
}

#[test]
fn all_without_platforms_builds_every_platform() {
    let plan = args(true, false, vec![], false).plan();
    assert!(plan.restore);
    assert!(plan.build);
    assert!(plan.pack);
    assert_eq!(plan.platforms, vec![Platform::x64, Platform::x86, Platform::ARM64, Platform::ARM]);
}

#[test]
fn all_with_platforms_keeps_the_named_ones() {
    let plan = args(true, false, vec![Platform::ARM, Platform::x86], false).plan();
    assert!(plan.restore && plan.build && plan.pack);
    assert_eq!(plan.platforms, vec![Platform::ARM, Platform::x86]);
}

#[test]
fn single_options_stand_alone() {
    let plan = args(false, true, vec![], false).plan();
    assert!(plan.restore);
    assert!(!plan.build);
    assert!(!plan.pack);
    assert!(plan.platforms.is_empty());

    let plan = args(false, false, vec![Platform::ARM64, Platform::x64], true).plan();
    assert!(!plan.restore);
    assert!(plan.build);
    assert!(plan.pack);
    assert_eq!(plan.platforms, vec![Platform::ARM64, Platform::x64]);
}

#[test]
fn from_str_parses_like_parse() {
    assert_eq!("Arm64".parse::<Platform>(), Ok(Platform::ARM64));
    assert_eq!("X86".parse::<Platform>(), Ok(Platform::x86));
    assert!("sparc".parse::<Platform>().is_err());
    assert_eq!(
        "amd64".parse::<Platform>().unwrap_err().message(),
        "Invalid resolution value! Expecting: x86, x64, ARM or ARM64."
    );
}
