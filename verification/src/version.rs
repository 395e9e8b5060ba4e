//! Release versions of the makers' software.
use vstd::prelude::*;

verus! {

/// The digits of `n` in base ten, most significant first.
pub open spec fn decimal(n: nat) -> Seq<char>
    decreases n,
{
    let digit = ('0' as int + (n % 10) as int) as char;
    if n < 10 {
        seq![digit]
    } else {
        decimal(n / 10).push(digit)
    }
}

/// A character of a pre-release or build identifier.
pub open spec fn identifier_char(c: char) -> bool {
    ||| '0' <= c <= '9'
    ||| 'A' <= c <= 'Z'
    ||| 'a' <= c <= 'z'
    ||| c == '-'
}

/// `s[from..to]` is one of the parts that the dots of `s` set apart.
pub open spec fn is_part(s: Seq<char>, from: int, to: int) -> bool {
    &&& 0 <= from <= to <= s.len()
    &&& from == 0 || s[from - 1] == '.'
    &&& to == s.len() || s[to] == '.'
    &&& forall|i: int| from <= i < to ==> s[i] != '.'
}

/// Build metadata: nothing, or non-empty identifiers with dots between them.
pub open spec fn build_accepted(s: Seq<char>) -> bool {
    s.len() == 0 || {
        &&& forall|i: int| 0 <= i < s.len() ==> s[i] == '.' || identifier_char(#[trigger] s[i])
        &&& forall|from: int, to: int| #[trigger] is_part(s, from, to) ==> from < to
    }
}

/// A pre-release: as build metadata, but a number has no leading zero.
pub open spec fn pre_accepted(s: Seq<char>) -> bool {
    &&& build_accepted(s)
    &&& forall|from: int, to: int| #[trigger]
        is_part(s, from, to) && from + 1 < to && s[from] == '0' ==> exists|i: int|
            from <= i < to && !('0' <= #[trigger] s[i] <= '9')
}

/// The five fields of a semantic version.
pub struct VersionView {
    pub major: u64,
    pub minor: u64,
    pub patch: u64,
    pub pre: Seq<char>,
    pub build: Seq<char>,
}

/// The version of the given fields.
pub open spec fn version_view(
    major: u64,
    minor: u64,
    patch: u64,
    pre: Seq<char>,
    build: Seq<char>,
) -> VersionView {
    VersionView { major, minor, patch, pre, build }
}

impl VersionView {
    /// The pre-release and the build metadata follow their grammar.
    pub open spec fn accepted(self) -> bool {
        pre_accepted(self.pre) && build_accepted(self.build)
    }

    /// `major.minor.patch`, then `-pre` and `+build` where they are not empty.
    pub open spec fn text(self) -> Seq<char> {
        decimal(self.major as nat) + seq!['.'] + decimal(self.minor as nat) + seq!['.'] + decimal(
            self.patch as nat,
        ) + (if self.pre.len() == 0 {
            Seq::empty()
        } else {
            seq!['-'] + self.pre
        }) + (if self.build.len() == 0 {
            Seq::empty()
        } else {
            seq!['+'] + self.build
        })
    }
}

/// The version of a maker's software, as libp2p identify reports it.
#[derive(Debug)]
pub struct Version {
    major: u64,
    minor: u64,
    patch: u64,
    pre: String,
    build: String,
}

/// `semver::Prerelease::new`, `semver::BuildMetadata::new` and the `Display` of
/// `semver::Version`: the two constructors accept what the two grammars allow,
/// and a version built from them is written as its fields in order, with a
/// hyphen before the pre-release and a plus sign before the build metadata.
#[verifier::external_body]
fn semver_text(major: u64, minor: u64, patch: u64, pre: &str, build: &str) -> (text: Option<String>)
    ensures
        text is Some <==> (pre_accepted(pre@) && build_accepted(build@)),
        text matches Some(s) ==> s@ == version_view(major, minor, patch, pre@, build@).text(),
{
    let pre = semver::Prerelease::new(pre).ok()?;
    let build = semver::BuildMetadata::new(build).ok()?;
    Some(semver::Version { major, minor, patch, pre, build }.to_string())
}

impl View for Version {
    type V = VersionView;

    closed spec fn view(&self) -> VersionView {
        VersionView {
            major: self.major,
            minor: self.minor,
            patch: self.patch,
            pre: self.pre@,
            build: self.build@,
        }
    }
}

impl Clone for Version {
    fn clone(&self) -> (copy: Self)
        ensures
            copy@ == self@,
    {
        proof {
            use_type_invariant(self);
        }
        Version {
            major: self.major,
            minor: self.minor,
            patch: self.patch,
            pre: self.pre.clone(),
            build: self.build.clone(),
        }
    }
}

impl Version {
    #[verifier::type_invariant]
    spec fn well_formed(self) -> bool {
        self@.accepted()
    }

    /// A version of the given fields, or `None` where the pre-release or the
    /// build metadata does not follow its grammar.
    pub fn new(major: u64, minor: u64, patch: u64, pre: String, build: String) -> (version: Option<
        Version,
    >)
        ensures
            version is Some <==> pre_accepted(pre@) && build_accepted(build@),
            version matches Some(v) ==> v@ == version_view(major, minor, patch, pre@, build@),
    {
        match semver_text(major, minor, patch, pre.as_str(), build.as_str()) {
            Some(_) => Some(Version { major, minor, patch, pre, build }),
            None => None,
        }
    }

    /// The version as makers print it.
    pub fn to_text(&self) -> (text: String)
        ensures
            text@ == self@.text(),
    {
        proof {
            use_type_invariant(self);
        }
        semver_text(
            self.major,
            self.minor,
            self.patch,
            self.pre.as_str(),
            self.build.as_str(),
        ).unwrap()
    }
}

/// Both texts write down versions, and the first is the greater one.
pub uninterp spec fn version_greater(a: Seq<char>, b: Seq<char>) -> bool;

/// The first text writes down a newer version than the second; false where one of
/// them writes down no version.
pub open spec fn version_newer(a: Seq<char>, b: Seq<char>) -> bool {
    a != b && version_greater(a, b)
}

/// `semver::Version::parse` of both texts, and `>` of `semver::Version`. The result
/// is a function of the texts alone. Versions are totally ordered, so none is newer
/// than itself, and what is newer than the newer one is newer than the other.
#[verifier::external_body]
pub(crate) fn semver_newer(a: &str, b: &str) -> (newer: bool)
    ensures
        newer == version_greater(a@, b@),
        newer ==> a@ != b@,
        newer ==> (forall|c: Seq<char>| #[trigger] version_newer(c, a@) ==> version_newer(c, b@)),
{
    match (semver::Version::parse(a), semver::Version::parse(b)) {
        (Ok(a), Ok(b)) => a > b,
        _ => false,
    }
}

} // verus!
