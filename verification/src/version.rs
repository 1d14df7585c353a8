//! Version identity and protocol compatibility.
//!
//! Two endpoints may stream to each other exactly when they agree on a
//! protocol identifier, a hash of the version's major number — together with
//! the prerelease tag for prerelease builds — so that semver-compatible
//! versions produce the same identifier. Identifiers are not ordered.

use std::collections::hash_map::DefaultHasher;
use std::hash::Hasher;
use vstd::prelude::*;
use vstd::std_specs::hash::DefaultHasherAdditionalSpecFns;
use vstd::string::StrSliceExecFns;
use vstd::string::StringExecFns;
use vstd::utf8::encode_utf8;
use crate::text::spec_decimal;
use crate::text::spec_str_contains;
use crate::text::str_contains;
use crate::text::u64_to_string;

verus! {

/// The parsed pieces of a semantic version that the protocol logic reads:
/// the three numbers, the prerelease tag and the build metadata.
#[derive(Clone)]
pub struct VersionInfo {
    pub major: u64,
    pub minor: u64,
    pub patch: u64,
    pub pre: String,
    pub build: String,
}

/// The hash of a string: the standard hasher run over the string's UTF-8
/// bytes as one write. Consistent across architectures within one build of
/// this library.
pub open spec fn spec_string_hash(s: Seq<char>) -> u64 {
    DefaultHasher::spec_finish(seq![encode_utf8(s)])
}

/// The string a version's protocol identifier is computed from: the major
/// number alone for non-prerelease versions, with the prerelease tag
/// appended otherwise.
pub open spec fn spec_protocol_string(major: int, pre: Seq<char>) -> Seq<char> {
    if pre.len() == 0 {
        spec_decimal(major)
    } else {
        spec_decimal(major) + seq!['-'] + pre
    }
}

/// A version's protocol identifier.
pub open spec fn spec_protocol_id(v: VersionInfo) -> u64 {
    spec_string_hash(spec_protocol_string(v.major as int, v.pre@))
}

/// Hash a string with the standard hasher.
pub fn hash_string(string: &str) -> (r: u64)
    ensures
        r == spec_string_hash(string@),
{
    let mut hasher = DefaultHasher::new();
    hasher.write(string.as_bytes());
    let r = hasher.finish();
    proof {
        assert(hasher@ =~= seq![encode_utf8(string@)]);
    }
    r
}

/// Whether this is a nightly build: its build metadata names "nightly".
pub fn is_nightly(version: &VersionInfo) -> (r: bool)
    ensures
        r == spec_str_contains(version.build@, "nightly"@),
{
    str_contains(version.build.as_str(), "nightly")
}

/// Whether this is a stable release: no prerelease tag and not a nightly.
pub fn is_stable(version: &VersionInfo) -> (r: bool)
    ensures
        r == (version.pre@.len() == 0 && !spec_str_contains(version.build@, "nightly"@)),
{
    let pre_empty = version.pre.as_str().unicode_len() == 0;
    pre_empty && !is_nightly(version)
}

/// A version's protocol identifier. Semver-compatible versions produce the
/// same identifier; the identifier bytes travel on the wire little endian.
pub fn protocol_id(version: &VersionInfo) -> (r: u64)
    ensures
        r == spec_protocol_id(*version),
{
    let mut protocol_string = u64_to_string(version.major);
    if version.pre.as_str().unicode_len() > 0 {
        proof {
            reveal_strlit("-");
        }
        protocol_string.append("-");
        protocol_string.append(version.pre.as_str());
        proof {
            assert(protocol_string@ =~= spec_protocol_string(
                version.major as int,
                version.pre@,
            ));
        }
    }
    hash_string(protocol_string.as_str())
}

/// Whether two endpoints can talk to each other: their protocol identifiers
/// agree.
pub fn is_version_compatible(this_version: &VersionInfo, other_version: &VersionInfo) -> (r:
    bool)
    ensures
        r == (spec_protocol_id(*this_version) == spec_protocol_id(*other_version)),
{
    protocol_id(this_version) == protocol_id(other_version)
}

} // verus!
