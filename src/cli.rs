//! The command-line model: target platforms and the run configuration.

use vstd::prelude::*;
use vstd::string::*;

verus! {

/// A target CPU architecture of a release build.
#[allow(non_camel_case_types)]
#[derive(Debug, Copy, Clone, PartialEq, Eq, Structural)]
pub enum Platform {
    x64,
    ARM,
    x86,
    ARM64,
}

/// The error of parsing a token that names no platform.
#[derive(Copy, Clone, Debug, PartialEq, Eq)]
pub struct ParsePlatformError(&'static str);

/// The canonical spelling of each platform.
pub open spec fn platform_name(p: Platform) -> Seq<char> {
    match p {
        Platform::x64 => "x64"@,
        Platform::ARM => "ARM"@,
        Platform::x86 => "x86"@,
        Platform::ARM64 => "ARM64"@,
    }
}

/// A character with ASCII upper case letters mapped to lower case.
pub open spec fn fold_ascii(c: char) -> u32 {
    if 'A' <= c && c <= 'Z' {
        (c as u32 + 32) as u32
    } else {
        c as u32
    }
}

/// Two strings are equal once ASCII letters are compared without case.
pub open spec fn same_ignoring_ascii_case(s: Seq<char>, t: Seq<char>) -> bool {
    &&& s.len() == t.len()
    &&& forall|i: int| 0 <= i < s.len() ==> #[trigger] fold_ascii(s[i]) == fold_ascii(t[i])
}

/// The platform that a token names, in any case, if it names one.
pub open spec fn parse_platform(s: Seq<char>) -> Option<Platform> {
    if same_ignoring_ascii_case(s, platform_name(Platform::x64)) {
        Some(Platform::x64)
    } else if same_ignoring_ascii_case(s, platform_name(Platform::ARM)) {
        Some(Platform::ARM)
    } else if same_ignoring_ascii_case(s, platform_name(Platform::x86)) {
        Some(Platform::x86)
    } else if same_ignoring_ascii_case(s, platform_name(Platform::ARM64)) {
        Some(Platform::ARM64)
    } else {
        None
    }
}

/// The message carried by a failed parse.
pub open spec fn invalid_platform_message() -> Seq<char> {
    "Invalid resolution value! Expecting: x86, x64, ARM or ARM64."@
}

/// A token that spells a platform's canonical name, with any mix of upper and
/// lower case ASCII letters, parses to that platform.
pub proof fn lemma_parse_any_case(p: Platform, t: Seq<char>)
    requires
        same_ignoring_ascii_case(t, platform_name(p)),
    ensures
        parse_platform(t) == Some(p),
{
    reveal_strlit("x64");
    reveal_strlit("ARM");
    reveal_strlit("x86");
    reveal_strlit("ARM64");
    if t.len() == 3 {
        assert(fold_ascii(t[0]) == fold_ascii(platform_name(p)[0]));
        assert(fold_ascii(t[1]) == fold_ascii(platform_name(p)[1]));
    }
}

fn fold_ascii_char(c: char) -> (r: u32)
    ensures
        r == fold_ascii(c),
{
    if 'A' <= c && c <= 'Z' {
        c as u32 + 32
    } else {
        c as u32
    }
}

/// Compares two strings, ASCII letters without regard to case.
pub fn eq_ignore_ascii_case(s: &str, t: &str) -> (r: bool)
    ensures
        r == same_ignoring_ascii_case(s@, t@),
{
    let n = s.unicode_len();
    if n != t.unicode_len() {
        return false;
    }
    let mut i: usize = 0;
    while i < n
        invariant
            n == s@.len(),
            n == t@.len(),
            i <= n,
            forall|j: int| 0 <= j < i ==> #[trigger] fold_ascii(s@[j]) == fold_ascii(t@[j]),
        decreases n - i,
    {
        if fold_ascii_char(s.get_char(i)) != fold_ascii_char(t.get_char(i)) {
            return false;
        }
        i = i + 1;
    }
    true
}

impl Platform {
    /// Parses a platform token, ignoring the case of ASCII letters.
    pub fn parse(s: &str) -> (r: Result<Platform, ParsePlatformError>)
        ensures
            match r {
                Ok(p) => parse_platform(s@) == Some(p),
                Err(e) => parse_platform(s@) is None && e.text() == invalid_platform_message(),
            },
    {
        if eq_ignore_ascii_case(s, "x64") {
            Ok(Platform::x64)
        } else if eq_ignore_ascii_case(s, "ARM") {
            Ok(Platform::ARM)
        } else if eq_ignore_ascii_case(s, "x86") {
            Ok(Platform::x86)
        } else if eq_ignore_ascii_case(s, "ARM64") {
            Ok(Platform::ARM64)
        } else {
            Err(ParsePlatformError("Invalid resolution value! Expecting: x86, x64, ARM or ARM64."))
        }
    }

    /// The canonical spelling of the platform, as the build tool expects it.
    pub fn as_str(&self) -> (r: &'static str)
        ensures
            r@ == platform_name(*self),
    {
        match self {
            Platform::x64 => "x64",
            Platform::ARM => "ARM",
            Platform::x86 => "x86",
            Platform::ARM64 => "ARM64",
        }
    }
}

impl std::str::FromStr for Platform {
    type Err = ParsePlatformError;

    fn from_str(s: &str) -> (r: Result<Platform, ParsePlatformError>)
        ensures
            match r {
                Ok(p) => parse_platform(s@) == Some(p),
                Err(e) => parse_platform(s@) is None && e.text() == invalid_platform_message(),
            },
    {
        Platform::parse(s)
    }
}

impl ParsePlatformError {
    /// The text of the message.
    pub closed spec fn text(&self) -> Seq<char> {
        self.0@
    }

    /// A description of what was expected.
    pub fn message(&self) -> (r: &'static str)
        ensures
            r@ == self.text(),
    {
        self.0
    }
}

/// The options given on the command line.
pub struct Args {
    /// The directory to work in instead of the current one.
    pub dir: Option<String>,
    /// Restore, build every platform unless some are named, and pack.
    pub all: bool,
    /// Restore the projects' dependencies.
    pub restore: bool,
    /// The platforms to build for, in the order given.
    pub build: Vec<Platform>,
    /// Pack the built components.
    pub pack: bool,
}

/// What a run does, once the options are resolved.
pub struct Plan {
    /// Restore every project's dependencies.
    pub restore: bool,
    /// Build every project for each platform.
    pub build: bool,
    /// The platforms built for, in order.
    pub platforms: Vec<Platform>,
    /// Pack the built components.
    pub pack: bool,
}

/// The platforms that a run builds when it is asked to do everything and
/// names none, in the order built.
pub open spec fn every_platform() -> Seq<Platform> {
    seq![Platform::x64, Platform::x86, Platform::ARM64, Platform::ARM]
}

/// The platforms built for the given options.
pub open spec fn platforms_of(all: bool, named: Seq<Platform>) -> Seq<Platform> {
    if all && named.len() == 0 {
        every_platform()
    } else {
        named
    }
}

impl Args {
    /// Resolves the options: asking for everything implies restore, build and
    /// pack, and every platform when none is named.
    pub fn plan(&self) -> (r: Plan)
        ensures
            r.restore == (self.all || self.restore),
            r.build == (self.all || self.build@.len() > 0),
            r.pack == (self.all || self.pack),
            r.platforms@ == platforms_of(self.all, self.build@),
    {
        let mut platforms: Vec<Platform> = Vec::new();
        let mut i: usize = 0;
        while i < self.build.len()
            invariant
                i <= self.build@.len(),
                platforms@ == self.build@.take(i as int),
            decreases self.build@.len() - i,
        {
            platforms.push(self.build[i]);
            i = i + 1;
            assert(platforms@ =~= self.build@.take(i as int));
        }
        assert(platforms@ =~= self.build@);
        if self.all && platforms.len() == 0 {
            platforms.push(Platform::x64);
            platforms.push(Platform::x86);
            platforms.push(Platform::ARM64);
            platforms.push(Platform::ARM);
            assert(platforms@ =~= every_platform());
        }
        Plan {
            restore: self.all || self.restore,
            build: self.all || self.build.len() > 0,
            platforms,
            pack: self.all || self.pack,
        }
    }
}

} // verus!
