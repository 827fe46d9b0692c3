//! The schema version gate: a registry holding the current schema version,
//! which accepts or rejects persisted documents by the semantic version tag
//! they declare. Only the major version decides compatibility; minor and
//! patch differences are always accepted.

use vstd::prelude::*;

verus! {

/// The current schema version, as written into generated documents.
pub const SCHEMA_VERSION: &'static str = "1.0.0";

/// A semantic version reduced to its numeric core.
#[derive(Debug, Clone, Copy, PartialEq, Eq, Structural)]
pub struct SemVer {
    pub major: u64,
    pub minor: u64,
    pub patch: u64,
}

/// Index of the first occurrence of `c` in `s`, or -1 when absent.
pub open spec fn find_char(s: Seq<char>, c: char) -> int
    decreases s.len(),
{
    if s.len() == 0 {
        -1
    } else if s[0] == c {
        0
    } else {
        let r = find_char(s.skip(1), c);
        if r < 0 {
            -1
        } else {
            r + 1
        }
    }
}

pub open spec fn is_digit(c: char) -> bool {
    48 <= (c as u32) <= 57
}

/// The numeric value of a run of decimal digits.
pub open spec fn digits_value(s: Seq<char>) -> int
    decreases s.len(),
{
    if s.len() == 0 {
        0
    } else {
        digits_value(s.drop_last()) * 10 + ((s.last() as u32) - 48)
    }
}

/// A semver numeric identifier: a nonempty run of decimal digits, no
/// leading zero, whose value fits in a u64.
pub open spec fn is_numeric_ident(s: Seq<char>) -> bool {
    &&& s.len() > 0
    &&& forall|i: int| 0 <= i < s.len() ==> is_digit(#[trigger] s[i])
    &&& (s.len() > 1 ==> s[0] != '0')
    &&& digits_value(s) <= u64::MAX
}

/// The parse of a plain `major.minor.patch` string: exactly three
/// dot-separated numeric identifiers and nothing else. This is the numeric
/// core of the semantic version grammar, without pre-release or build parts.
pub open spec fn spec_parse_simple_semver(s: Seq<char>) -> Option<SemVer> {
    let i = find_char(s, '.');
    if i < 0 {
        None
    } else {
        let rest = s.skip(i + 1);
        let j = find_char(rest, '.');
        if j < 0 {
            None
        } else {
            let a = s.subrange(0, i);
            let b = rest.subrange(0, j);
            let c = rest.skip(j + 1);
            if is_numeric_ident(a) && is_numeric_ident(b) && is_numeric_ident(c) {
                Some(
                    SemVer {
                        major: digits_value(a) as u64,
                        minor: digits_value(b) as u64,
                        patch: digits_value(c) as u64,
                    },
                )
            } else {
                None
            }
        }
    }
}

/// The numeric core of what `semver::Version::parse` returns on a string,
/// or None when the string is not a valid semantic version. The result is a
/// function of the string alone.
pub uninterp spec fn semver_of(s: Seq<char>) -> Option<SemVer>;

/// Relies on `semver::Version::parse`: it accepts or rejects a string
/// deterministically, and on a plain numeric `major.minor.patch` string (no
/// pre-release, no build metadata) it returns exactly those three numbers.
/// The error detail is the parse error rendered as text.
#[verifier::external_body]
fn parse_version(s: &str) -> (r: Result<SemVer, String>)
    ensures
        r is Ok <==> semver_of(s@) is Some,
        semver_of(s@) is Some ==> r is Ok && r->Ok_0 == semver_of(s@)->0,
        spec_parse_simple_semver(s@) is Some ==> r is Ok && r->Ok_0 == spec_parse_simple_semver(
            s@,
        )->0,
{
    match semver::Version::parse(s) {
        Ok(v) => Ok(SemVer { major: v.major, minor: v.minor, patch: v.patch }),
        Err(e) => Err(e.to_string()),
    }
}

/// What the manifest version-tag extraction yields on a document text:
/// None when the text is not valid JSON, Some(None) when the document has no
/// `project.schema_version` string field, and Some(Some(tag)) otherwise.
/// The result is a function of the text alone.
pub uninterp spec fn manifest_version_tag_of(s: Seq<char>) -> Option<Option<Seq<char>>>;

/// Relies on `serde_json::from_str::<Value>`, `Value::get` and
/// `Value::as_str`: parses the document as generic JSON and picks the
/// `project.schema_version` string field. The error detail is the JSON
/// parse error rendered as text.
#[verifier::external_body]
fn extract_manifest_version_tag(data: &str) -> (r: Result<Option<String>, String>)
    ensures
        r is Ok <==> manifest_version_tag_of(data@) is Some,
        manifest_version_tag_of(data@) is Some ==> r is Ok && (r->Ok_0 is Some <==>
            manifest_version_tag_of(data@)->0 is Some),
        manifest_version_tag_of(data@) is Some && manifest_version_tag_of(data@)->0 is Some
            ==> r is Ok && r->Ok_0 is Some && r->Ok_0->0@ == manifest_version_tag_of(data@)->0->0,
{
    let v: serde_json::Value = match serde_json::from_str(data) {
        Ok(v) => v,
        Err(e) => {
            return Err(e.to_string());
        },
    };
    let tag = v.get("project").and_then(|p| p.get("schema_version")).and_then(|s| s.as_str());
    match tag {
        Some(s) => Ok(Some(s.to_string())),
        None => Ok(None),
    }
}

/// The errors of the version gate. Parse details carry the rendered error
/// text of the underlying parser.
#[derive(Debug, Clone, PartialEq)]
pub enum SchemaError {
    /// The document declares no schema version.
    MissingVersion,
    /// The declared schema version is not a valid semantic version.
    VersionParse(String),
    /// The document is not valid JSON.
    JsonParse(String),
    /// The declared major version differs from the registry's.
    IncompatibleVersion { found: String, required_major: u64 },
}

/// Holds the schema version this build reads and writes, and gates
/// persisted documents on major-version compatibility.
#[derive(Debug, Clone, PartialEq)]
pub struct SchemaRegistry {
    pub current_version: SemVer,
}

impl SchemaRegistry {
    /// A registry at the current schema version, the parse of
    /// `SCHEMA_VERSION`.
    pub fn new() -> (r: Self)
        ensures
            r.current_version == (SemVer { major: 1u64, minor: 0u64, patch: 0u64 }),
    {
        SchemaRegistry { current_version: SemVer { major: 1, minor: 0, patch: 0 } }
    }

    pub fn version(&self) -> (r: &SemVer)
        ensures
            r == self.current_version,
    {
        &self.current_version
    }

    /// Decides an extracted version tag: absent tags are rejected as
    /// missing, unparsable tags as malformed, and parsed tags are accepted
    /// exactly when their major version equals the registry's.
    pub fn validate_version_tag(&self, tag: Option<&str>) -> (r: Result<(), SchemaError>)
        ensures
            tag is None ==> r == Err::<(), SchemaError>(SchemaError::MissingVersion),
            tag matches Some(t) && semver_of(t@) is None ==> (r is Err && r->Err_0
                is VersionParse),
            tag matches Some(t) && semver_of(t@) matches Some(v) && v.major
                == self.current_version.major ==> r is Ok,
            tag matches Some(t) && semver_of(t@) matches Some(v) && v.major
                != self.current_version.major ==> (r is Err && r->Err_0
                is IncompatibleVersion && r->Err_0->found@ == tag->0@
                && r->Err_0->required_major == self.current_version.major),
    {
        match tag {
            None => Err(SchemaError::MissingVersion),
            Some(t) => {
                match parse_version(t) {
                    Err(detail) => Err(SchemaError::VersionParse(detail)),
                    Ok(v) => {
                        if v.major == self.current_version.major {
                            Ok(())
                        } else {
                            Err(
                                SchemaError::IncompatibleVersion {
                                    found: t.to_owned(),
                                    required_major: self.current_version.major,
                                },
                            )
                        }
                    },
                }
            },
        }
    }

    /// Gates a serialized manifest document: parses it as generic JSON,
    /// extracts the declared `project.schema_version` tag, and decides it.
    /// The version is checked before any structural deserialization, so a
    /// cross-major document is rejected with a version error rather than a
    /// confusing structural one.
    pub fn validate_version(&self, data: &str) -> (r: Result<(), SchemaError>)
        ensures
            manifest_version_tag_of(data@) is None ==> (r is Err && r->Err_0
                is JsonParse),
            manifest_version_tag_of(data@) matches Some(t) && t is None ==> r == Err::<
                (),
                SchemaError,
            >(SchemaError::MissingVersion),
            manifest_version_tag_of(data@) matches Some(t) && t matches Some(tag) && semver_of(
                tag,
            ) is None ==> (r is Err && r->Err_0 is VersionParse),
            manifest_version_tag_of(data@) matches Some(t) && t matches Some(tag) && semver_of(
                tag,
            ) matches Some(v) && v.major == self.current_version.major ==> r is Ok,
            manifest_version_tag_of(data@) matches Some(t) && t matches Some(tag) && semver_of(
                tag,
            ) matches Some(v) && v.major != self.current_version.major ==> (r is Err
                && r->Err_0 is IncompatibleVersion && r->Err_0->found@
                == manifest_version_tag_of(data@)->0->0 && r->Err_0->required_major
                == self.current_version.major),
    {
        match extract_manifest_version_tag(data) {
            Err(detail) => Err(SchemaError::JsonParse(detail)),
            Ok(None) => Err(SchemaError::MissingVersion),
            Ok(Some(t)) => self.validate_version_tag(Some(t.as_str())),
        }
    }
}

impl Default for SchemaRegistry {
    fn default() -> (r: Self)
        ensures
            r.current_version == (SemVer { major: 1u64, minor: 0u64, patch: 0u64 }),
    {
        SchemaRegistry::new()
    }
}

} // verus!
