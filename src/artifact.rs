use vstd::prelude::*;

verus! {

/// Runtime identifier under which artifacts of this runtime are registered.
pub const WASM_RUNTIME_ID: u32 = 2;

/// The character of a decimal digit.
pub open spec fn digit_char(d: nat) -> char {
    seq!['0', '1', '2', '3', '4', '5', '6', '7', '8', '9'][d as int]
}

/// The decimal rendering of a natural number, without leading zeros.
pub open spec fn decimal(n: nat) -> Seq<char>
    decreases n,
{
    if n < 10 {
        seq![digit_char(n)]
    } else {
        decimal(n / 10).push(digit_char(n % 10))
    }
}

fn digit_str(d: u64) -> (r: &'static str)
    requires
        d < 10,
    ensures
        r@ == seq![digit_char(d as nat)],
{
    proof {
        reveal_strlit("0");
        reveal_strlit("1");
        reveal_strlit("2");
        reveal_strlit("3");
        reveal_strlit("4");
        reveal_strlit("5");
        reveal_strlit("6");
        reveal_strlit("7");
        reveal_strlit("8");
        reveal_strlit("9");
    }
    match d {
        0 => "0",
        1 => "1",
        2 => "2",
        3 => "3",
        4 => "4",
        5 => "5",
        6 => "6",
        7 => "7",
        8 => "8",
        _ => "9",
    }
}

/// Appends the decimal rendering of `n` to `s`.
pub fn append_decimal(s: &mut String, n: u64)
    ensures
        final(s)@ == old(s)@ + decimal(n as nat),
    decreases n,
{
    if n >= 10 {
        append_decimal(s, n / 10);
    }
    let d = digit_str(n % 10);
    s.append(d);
    assert(final(s)@ =~= old(s)@ + decimal(n as nat));
}

/// Semantic version of an artifact: major, minor and patch numbers.
#[derive(Debug, Clone, Copy, PartialEq, Eq, Structural)]
pub struct Version {
    pub major: u64,
    pub minor: u64,
    pub patch: u64,
}

/// `a` is a strictly later version than `b`: the numbers compare lexicographically.
pub open spec fn version_gt(a: Version, b: Version) -> bool {
    a.major > b.major || (a.major == b.major && (a.minor > b.minor || (a.minor == b.minor
        && a.patch > b.patch)))
}

/// `major.minor.patch`.
pub open spec fn version_text(v: Version) -> Seq<char> {
    decimal(v.major as nat) + seq!['.'] + decimal(v.minor as nat) + seq!['.'] + decimal(
        v.patch as nat,
    )
}

impl Version {
    pub fn new(major: u64, minor: u64, patch: u64) -> (r: Version)
        ensures
            r == (Version { major, minor, patch }),
    {
        Version { major, minor, patch }
    }

    /// Whether this version is strictly later than `other`.
    pub fn is_newer_than(&self, other: &Version) -> (r: bool)
        ensures
            r == version_gt(*self, *other),
    {
        self.major > other.major || (self.major == other.major && (self.minor > other.minor || (
        self.minor == other.minor && self.patch > other.patch)))
    }

    /// Renders the version as `major.minor.patch`.
    pub fn to_text(&self) -> (r: String)
        ensures
            r@ == version_text(*self),
    {
        let mut s = String::new();
        append_decimal(&mut s, self.major);
        s.append(".");
        append_decimal(&mut s, self.minor);
        s.append(".");
        append_decimal(&mut s, self.patch);
        proof {
            reveal_strlit(".");
        }
        assert(s@ =~= version_text(*self));
        s
    }
}

/// The mathematical value of an artifact identifier.
pub struct ArtifactKey {
    pub runtime_id: u32,
    pub name: Seq<char>,
    pub version: Version,
}

/// Identifier of a deployable artifact: runtime, name and version.
#[derive(Debug)]
pub struct ArtifactId {
    pub runtime_id: u32,
    pub name: String,
    pub version: Version,
}

impl View for ArtifactId {
    type V = ArtifactKey;

    open spec fn view(&self) -> ArtifactKey {
        ArtifactKey { runtime_id: self.runtime_id, name: self.name@, version: self.version }
    }
}

/// `a` is a later version of the same artifact as `b`.
pub open spec fn is_upgrade(a: ArtifactKey, b: ArtifactKey) -> bool {
    a.runtime_id == b.runtime_id && a.name == b.name && version_gt(a.version, b.version)
}

/// `runtime_id:name:version`.
pub open spec fn artifact_text(a: ArtifactKey) -> Seq<char> {
    decimal(a.runtime_id as nat) + seq![':'] + a.name + seq![':'] + version_text(a.version)
}

impl ArtifactId {
    pub fn new(runtime_id: u32, name: String, version: Version) -> (r: ArtifactId)
        ensures
            r@ == (ArtifactKey { runtime_id, name: name@, version }),
    {
        ArtifactId { runtime_id, name, version }
    }

    /// Identifier of an artifact of this runtime.
    pub fn wasm(name: &str, version: Version) -> (r: ArtifactId)
        ensures
            r@ == (ArtifactKey { runtime_id: WASM_RUNTIME_ID, name: name@, version }),
    {
        ArtifactId { runtime_id: WASM_RUNTIME_ID, name: String::from_str(name), version }
    }

    /// Whether this artifact is a later version of the same artifact as `other`.
    pub fn is_upgrade_of(&self, other: &ArtifactId) -> (r: bool)
        ensures
            r == is_upgrade(self@, other@),
    {
        self.runtime_id == other.runtime_id && self.name == other.name
            && self.version.is_newer_than(&other.version)
    }

    /// Renders the identifier as `runtime_id:name:major.minor.patch`.
    pub fn to_text(&self) -> (r: String)
        ensures
            r@ == artifact_text(self@),
    {
        let mut s = String::new();
        append_decimal(&mut s, self.runtime_id as u64);
        s.append(":");
        s.append(self.name.as_str());
        s.append(":");
        let v = self.version.to_text();
        s.append(v.as_str());
        proof {
            reveal_strlit(":");
        }
        assert(s@ =~= artifact_text(self@));
        s
    }
}

impl Clone for ArtifactId {
    fn clone(&self) -> (r: Self)
        ensures
            r == *self,
    {
        ArtifactId { runtime_id: self.runtime_id, name: self.name.clone(), version: self.version }
    }
}

impl PartialEq for ArtifactId {
    fn eq(&self, other: &ArtifactId) -> (r: bool)
        ensures
            r == (self@ == other@),
    {
        self.runtime_id == other.runtime_id && self.name == other.name && self.version
            == other.version
    }
}

impl vstd::std_specs::cmp::PartialEqSpecImpl for ArtifactId {
    open spec fn obeys_eq_spec() -> bool {
        true
    }

    open spec fn eq_spec(&self, other: &ArtifactId) -> bool {
        self@ == other@
    }
}

impl Eq for ArtifactId {

}

} // verus!
