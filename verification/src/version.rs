//! Runtime versions: `major.minor.patch` triples, read from and written to
//! text.

use vstd::prelude::*;
use crate::number::{decimal, parse_u64, parse_u64_spec, push_decimal, lemma_decimal_digits, lemma_parse_decimal, all_digits};
use crate::text::{chars_of, split_chars, split_on, strip_start_char, strip_start_chars, trim, trim_chars, trim_end, trim_start, is_whitespace, is_ascii_digit, push_char, lemma_split_without_sep, lemma_split_after_piece};

verus! {

/// A runtime version such as `20.5.1`.
#[derive(Debug, Clone, Copy, PartialEq, Eq, Structural, Hash, PartialOrd, Ord)]
pub struct RuntimeVersion {
    pub major: u64,
    pub minor: u64,
    pub patch: u64,
}

/// Which part of a version text could not be read.
#[derive(Debug, Clone, Copy, PartialEq, Eq, Structural)]
pub enum VersionError {
    InvalidMajor,
    InvalidMinor,
    InvalidPatch,
}

/// `0.0.0`, the version that nothing requires.
pub open spec fn zero_version() -> RuntimeVersion {
    RuntimeVersion { major: 0, minor: 0, patch: 0 }
}

/// Versions are ordered by major, then minor, then patch.
pub open spec fn version_lt(a: RuntimeVersion, b: RuntimeVersion) -> bool {
    ||| a.major < b.major
    ||| (a.major == b.major && a.minor < b.minor)
    ||| (a.major == b.major && a.minor == b.minor && a.patch < b.patch)
}

/// The text that a version is read from once whitespace around it and any
/// leading `v` are removed.
pub open spec fn version_body(s: Seq<char>) -> Seq<char> {
    strip_start_char(trim(s), 'v')
}

/// The `i`-th dot-separated piece, or `0` where there is none.
pub open spec fn component(parts: Seq<Seq<char>>, i: int) -> Seq<char> {
    if i < parts.len() {
        parts[i]
    } else {
        seq!['0']
    }
}

/// What reading `s` as a version gives: the first three dot-separated
/// pieces (a missing piece counts as `0`, further pieces are ignored), each
/// read as a `u64`.
pub open spec fn parse_version_spec(s: Seq<char>) -> Result<RuntimeVersion, VersionError> {
    let parts = split_on(version_body(s), '.');
    match parse_u64_spec(component(parts, 0)) {
        None => Err(VersionError::InvalidMajor),
        Some(major) => match parse_u64_spec(component(parts, 1)) {
            None => Err(VersionError::InvalidMinor),
            Some(minor) => match parse_u64_spec(component(parts, 2)) {
                None => Err(VersionError::InvalidPatch),
                Some(patch) => Ok(RuntimeVersion { major, minor, patch }),
            },
        },
    }
}

/// The text of a version: `major.minor.patch` in decimal.
pub open spec fn version_text(v: RuntimeVersion) -> Seq<char> {
    decimal(v.major as nat) + seq!['.'] + decimal(v.minor as nat) + seq!['.'] + decimal(
        v.patch as nat,
    )
}

impl RuntimeVersion {
    /// `0.0.0`.
    pub fn zero() -> (v: Self)
        ensures
            v == zero_version(),
    {
        RuntimeVersion { major: 0, minor: 0, patch: 0 }
    }

    /// Whether this is `0.0.0`.
    pub fn is_zero(self) -> (r: bool)
        ensures
            r == (self == zero_version()),
    {
        self.major == 0 && self.minor == 0 && self.patch == 0
    }

    /// Whether `self` comes strictly before `other`.
    pub fn less_than(&self, other: &Self) -> (r: bool)
        ensures
            r == version_lt(*self, *other),
    {
        self.major < other.major || (self.major == other.major && self.minor < other.minor) || (
        self.major == other.major && self.minor == other.minor && self.patch < other.patch)
    }

    /// Whether the two versions are the same.
    pub fn same_as(&self, other: &Self) -> (r: bool)
        ensures
            r == (*self == *other),
    {
        self.major == other.major && self.minor == other.minor && self.patch == other.patch
    }

    /// Reads a version from characters, as `parse` does.
    pub fn parse_chars(value: &[char]) -> (r: Result<Self, VersionError>)
        ensures
            r == parse_version_spec(value@),
    {
        let trimmed = trim_chars(value);
        let body = strip_start_chars(trimmed.as_slice(), 'v');
        let parts = split_chars(body.as_slice(), '.');
        let zero_text: Vec<char> = vec!['0'];
        let ghost ps = split_on(version_body(value@), '.');
        assert(zero_text@ =~= seq!['0']);
        assert(parts@.len() > 0 ==> parts@[0]@ == component(ps, 0));
        assert(parts@.len() > 1 ==> parts@[1]@ == component(ps, 1));
        assert(parts@.len() > 2 ==> parts@[2]@ == component(ps, 2));
        let major = if parts.len() > 0 {
            parse_u64(parts[0].as_slice())
        } else {
            parse_u64(zero_text.as_slice())
        };
        let major = match major {
            Some(x) => x,
            None => return Err(VersionError::InvalidMajor),
        };
        let minor = if parts.len() > 1 {
            parse_u64(parts[1].as_slice())
        } else {
            parse_u64(zero_text.as_slice())
        };
        let minor = match minor {
            Some(x) => x,
            None => return Err(VersionError::InvalidMinor),
        };
        let patch = if parts.len() > 2 {
            parse_u64(parts[2].as_slice())
        } else {
            parse_u64(zero_text.as_slice())
        };
        let patch = match patch {
            Some(x) => x,
            None => return Err(VersionError::InvalidPatch),
        };
        Ok(RuntimeVersion { major, minor, patch })
    }

    /// Reads a version such as `v20.5.1`, `24` or ` 1.2 `.
    pub fn parse(value: &str) -> (r: Result<Self, VersionError>)
        ensures
            r == parse_version_spec(value@),
    {
        let chars = chars_of(value);
        Self::parse_chars(chars.as_slice())
    }

    /// The text of the version, such as `20.5.1`.
    pub fn to_string(&self) -> (s: String)
        ensures
            s@ == version_text(*self),
    {
        let mut s = String::new();
        push_decimal(&mut s, self.major);
        push_char(&mut s, '.');
        push_decimal(&mut s, self.minor);
        push_char(&mut s, '.');
        push_decimal(&mut s, self.patch);
        assert(s@ =~= version_text(*self));
        s
    }
}

impl Default for RuntimeVersion {
    fn default() -> (v: Self)
        ensures
            v == zero_version(),
    {
        RuntimeVersion { major: 0, minor: 0, patch: 0 }
    }
}

impl core::str::FromStr for RuntimeVersion {
    type Err = VersionError;

    /// Reads a version as `RuntimeVersion::parse` does.
    fn from_str(value: &str) -> (r: Result<Self, VersionError>)
        ensures
            r == parse_version_spec(value@),
    {
        RuntimeVersion::parse(value)
    }
}

proof fn lemma_no_dot(n: nat)
    ensures
        !decimal(n).contains('.'),
{
    lemma_decimal_digits(n);
    if decimal(n).contains('.') {
        let k = choose|k: int| 0 <= k < decimal(n).len() && decimal(n)[k] == '.';
        assert(is_ascii_digit(decimal(n)[k]));
    }
}

/// Reading back the text of a version gives the version.
pub proof fn lemma_parse_version_text(v: RuntimeVersion)
    ensures
        parse_version_spec(version_text(v)) == Ok::<RuntimeVersion, VersionError>(v),
{
    let a = decimal(v.major as nat);
    let b = decimal(v.minor as nat);
    let c = decimal(v.patch as nat);
    lemma_decimal_digits(v.major as nat);
    lemma_decimal_digits(v.minor as nat);
    lemma_decimal_digits(v.patch as nat);
    let t = version_text(v);
    assert(t[0] == a[0]);
    assert(t.last() == c.last());
    assert(trim_start(t) == t);
    assert(trim_end(t) == t);
    assert(trim(t) == t);
    assert(strip_start_char(t, 'v') == t);
    lemma_no_dot(v.major as nat);
    lemma_no_dot(v.minor as nat);
    lemma_no_dot(v.patch as nat);
    lemma_split_without_sep(c, '.');
    lemma_split_after_piece(b, '.', c);
    assert(t =~= a + seq!['.'] + (b + seq!['.'] + c));
    lemma_split_after_piece(a, '.', b + seq!['.'] + c);
    let parts = split_on(t, '.');
    assert(parts =~= seq![a, b, c]);
    lemma_parse_decimal(v.major);
    lemma_parse_decimal(v.minor);
    lemma_parse_decimal(v.patch);
}

/// The order on versions is a strict total order.
pub proof fn lemma_version_order(a: RuntimeVersion, b: RuntimeVersion, c: RuntimeVersion)
    ensures
        !version_lt(a, a),
        version_lt(a, b) ==> !version_lt(b, a),
        version_lt(a, b) && version_lt(b, c) ==> version_lt(a, c),
        version_lt(a, b) || a == b || version_lt(b, a),
{
}

} // verus!
