use vstd::prelude::*;

use crate::error::N5Error;

verus! {

/// Major version of the N5 format specification that n5 reads (`n5::VERSION`).
pub const SUPPORTED_MAJOR: u64 = 2;

/// Minor version of the N5 format specification that n5 reads (`n5::VERSION`).
pub const SUPPORTED_MINOR: u64 = 1;

/// Patch version of the N5 format specification that n5 reads (`n5::VERSION`).
pub const SUPPORTED_PATCH: u64 = 3;

/// A semantic version triple.
#[derive(Debug, Clone, Copy, PartialEq, Eq, Structural)]
pub struct Version {
    pub major: u64,
    pub minor: u64,
    pub patch: u64,
}

/// What `semver::Version::parse` makes of a string: its version triple, or
/// `None` where the string is not a semantic version.
pub uninterp spec fn semver_triple(s: Seq<char>) -> Option<(u64, u64, u64)>;

/// Relies on `semver::Version::parse` (re-exported by n5 as `n5::Version`):
/// the triple of a valid semantic version; pre-release and build tags are
/// not kept.
#[verifier::external_body]
fn parse_semver(s: &str) -> (r: Option<Version>)
    ensures
        match r {
            Some(v) => semver_triple(s@) == Some((v.major, v.minor, v.patch)),
            None => semver_triple(s@) is None,
        },
{
    match n5::Version::parse(s) {
        Ok(v) => Some(Version { major: v.major, minor: v.minor, patch: v.patch }),
        Err(_) => None,
    }
}

/// The decimal digits of `n`, most significant first, without leading zeros.
pub open spec fn decimal(n: nat) -> Seq<char>
    decreases n,
{
    if n < 10 {
        seq![digit_char(n)]
    } else {
        decimal(n / 10).push(digit_char(n % 10))
    }
}

/// The character of a decimal digit.
pub open spec fn digit_char(d: nat) -> char {
    if d == 0 { '0' }
    else if d == 1 { '1' }
    else if d == 2 { '2' }
    else if d == 3 { '3' }
    else if d == 4 { '4' }
    else if d == 5 { '5' }
    else if d == 6 { '6' }
    else if d == 7 { '7' }
    else if d == 8 { '8' }
    else { '9' }
}

/// A one-character string holding the decimal digit `d`.
fn digit_str(d: u64) -> (s: &'static str)
    requires
        d < 10,
    ensures
        s@ == seq![digit_char(d as nat)],
{
    proof {
        reveal_strlit("0");
        reveal_strlit("1");
        reveal_strlit("2");
        reveal_strlit("3");
        reveal_strlit("4");
        reveal_strlit("5");
        reveal_strlit("6");
        reveal_strlit("7");
        reveal_strlit("8");
        reveal_strlit("9");
    }
    if d == 0 { "0" }
    else if d == 1 { "1" }
    else if d == 2 { "2" }
    else if d == 3 { "3" }
    else if d == 4 { "4" }
    else if d == 5 { "5" }
    else if d == 6 { "6" }
    else if d == 7 { "7" }
    else if d == 8 { "8" }
    else { "9" }
}

/// Appends the decimal rendering of `n` to `s`.
pub fn push_decimal(s: &mut String, n: u64)
    ensures
        final(s)@ == old(s)@ + decimal(n as nat),
    decreases n,
{
    if n < 10 {
        s.append(digit_str(n));
    } else {
        push_decimal(s, n / 10);
        s.append(digit_str(n % 10));
        assert(decimal(n as nat) == decimal((n / 10) as nat).push(digit_char((n % 10) as nat)));
        assert(final(s)@ =~= old(s)@ + decimal(n as nat));
    }
}

/// Relies on `n5::VERSION`: the format version n5 reads, 2.1.3; its
/// pre-release and build tags are empty.
#[verifier::external_body]
fn n5_format_version() -> (r: Version)
    ensures
        r.major == SUPPORTED_MAJOR,
        r.minor == SUPPORTED_MINOR,
        r.patch == SUPPORTED_PATCH,
{
    Version { major: n5::VERSION.major, minor: n5::VERSION.minor, patch: n5::VERSION.patch }
}

impl Version {
    /// The version of the N5 format specification that this library reads,
    /// as n5 declares it.
    pub fn supported() -> (r: Version)
        ensures
            r.major == SUPPORTED_MAJOR,
            r.minor == SUPPORTED_MINOR,
            r.patch == SUPPORTED_PATCH,
    {
        n5_format_version()
    }

    /// Whether an implementation of version `self` can access a container of
    /// version `other`: it can unless the container's major version is newer.
    pub fn is_compatible(&self, other: &Version) -> (r: bool)
        ensures
            r == (other.major <= self.major),
    {
        other.major <= self.major
    }

    /// Reads a version string such as `"2.1.3"`.
    pub fn parse(s: &str) -> (r: Result<Version, N5Error>)
        ensures
            match semver_triple(s@) {
                Some(t) => r == Ok::<Version, N5Error>(Version { major: t.0, minor: t.1, patch: t.2 }),
                None => r == Err::<Version, N5Error>(N5Error::Malformed),
            },
    {
        match parse_semver(s) {
            Some(v) => Ok(v),
            None => Err(N5Error::Malformed),
        }
    }

    /// The version rendered as `major.minor.patch`.
    pub fn to_string(&self) -> (r: String)
        ensures
            r@ == decimal(self.major as nat) + seq!['.'] + decimal(self.minor as nat) + seq!['.']
                + decimal(self.patch as nat),
    {
        let mut s = String::new();
        push_decimal(&mut s, self.major);
        s.append(".");
        push_decimal(&mut s, self.minor);
        s.append(".");
        push_decimal(&mut s, self.patch);
        proof {
            reveal_strlit(".");
        }
        s
    }
}

} // verus!
