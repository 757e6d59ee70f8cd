//! Directory resolution: derives the candidate hostname for a participant
//! from a hash of its canonical identifier and the directory root domain,
//! and turns the caller's name-resolution result into the resolution
//! outcome.

use vstd::prelude::*;
use vstd::string::StringExecFns;
use crate::hex::hex_of;
use crate::hex::to_hex_lower;
use crate::identifier::ParticipantIdentifier;

verus! {

/// The 16-byte MD5 digest of the UTF-8 bytes of a string. The directory
/// protocol fixes this exact algorithm; hostnames derived with any other
/// hash would not match real directory entries.
pub uninterp spec fn md5_of(s: Seq<char>) -> Seq<u8>;

/// Relies on Md5 of the RustCrypto md-5 crate, through its Digest trait:
/// the digest depends on the input bytes alone and is 16 bytes long.
#[verifier::external_body]
fn md5_digest(s: &str) -> (r: Vec<u8>)
    ensures
        r@ == md5_of(s@),
        r@.len() == 16,
{
    let digest = <md5::Md5 as md5::Digest>::digest(s.as_bytes());
    digest.to_vec()
}

/// The candidate hostname for a canonical identifier under a root domain:
/// a fixed prefix, the lowercase hex MD5 of the identifier, the directory
/// zone label, and the root domain.
pub open spec fn candidate_hostname_spec(canonical: Seq<char>, domain: Seq<char>) -> Seq<char> {
    "b-"@ + hex_of(md5_of(canonical)) + ".iso6523-actorid-upis."@ + domain
}

/// Builds the candidate hostname checked against name resolution.
pub fn candidate_hostname(id: &ParticipantIdentifier, domain: &str) -> (r: String)
    ensures
        r@ == candidate_hostname_spec(id.canonical_spec(), domain@),
{
    let canonical = id.canonical();
    let digest = md5_digest(canonical.as_str());
    let hash_hex = to_hex_lower(&digest);
    let mut r = String::from_str("b-");
    r.append(hash_hex.as_str());
    r.append(".iso6523-actorid-upis.");
    r.append(domain);
    proof {
        assert(r@ =~= candidate_hostname_spec(id.canonical_spec(), domain@));
    }
    r
}

/// The resolution outcome. The caller performs name resolution on the
/// candidate hostname and reports whether it succeeded; a failure of any
/// kind means the participant is not in the directory.
pub fn resolve(candidate: String, name_resolves: bool) -> (r: Option<String>)
    ensures
        name_resolves ==> r == Some(candidate),
        !name_resolves ==> r is None,
{
    if name_resolves {
        Some(candidate)
    } else {
        None
    }
}

/// Resolution is deterministic: identical canonical identifiers and
/// identical root domains give the identical candidate hostname.
pub proof fn lemma_candidate_hostname_deterministic(
    a: ParticipantIdentifier,
    b: ParticipantIdentifier,
    domain_a: Seq<char>,
    domain_b: Seq<char>,
)
    requires
        a.canonical_spec() == b.canonical_spec(),
        domain_a == domain_b,
    ensures
        candidate_hostname_spec(a.canonical_spec(), domain_a) == candidate_hostname_spec(
            b.canonical_spec(),
            domain_b,
        ),
{
}

} // verus!
