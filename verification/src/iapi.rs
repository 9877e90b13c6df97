//! Data model and validation rules of the vulnerability-submission API:
//! the server response shape, the proof-of-discovery and patch payloads,
//! and the checks a submission passes before it is forwarded.

use crate::text::{spec_chars_match_at, spec_is_u64_string, str_starts_with, parse_u64};
use base64::Engine;
use vstd::prelude::*;

verus! {

/// The status field of a server response.
#[derive(PartialEq, Eq, Debug)]
pub enum Status {
    /// Health status.
    Healthy,
    /// Accept query.
    Accepted,
    /// Reject query.
    Rejected,
    /// Pending query.
    Pending,
    /// Respond with unexpected error.
    UnexpectedError(String),
}

/// What the submission server answers: a status and at most one of the
/// three submission identifiers.
#[derive(PartialEq, Eq, Debug)]
pub struct IAPIServerResponse {
    pub status: Status,
    pub vd_uuid: Option<String>,
    pub cpv_uuid: Option<String>,
    pub gp_uuid: Option<String>,
}

/// The lifecycle of a vulnerability-discovery submission.
#[derive(PartialEq, Eq, Structural, Clone, Copy, Debug)]
pub enum VDSStatus {
    Accepted,
    Pending,
    Rejected,
}

/// An error of this API's own validation.
#[derive(PartialEq, Eq, Structural, Clone, Copy, Debug)]
pub enum IapiError {
    /// A status string that names no known status.
    InvalidStatus,
    /// A string that is no UUID at all.
    NotAUuid,
    /// A UUID of a version other than the random one.
    WrongUuidVersion,
}

impl VDSStatus {
    /// Read a status string: exactly `accepted`, `pending` or `rejected`.
    pub fn try_from(value: String) -> (r: Result<VDSStatus, IapiError>)
        ensures
            value@ == "accepted"@ ==> r == Result::<VDSStatus, IapiError>::Ok(VDSStatus::Accepted),
            value@ == "pending"@ ==> r == Result::<VDSStatus, IapiError>::Ok(VDSStatus::Pending),
            value@ == "rejected"@ ==> r == Result::<VDSStatus, IapiError>::Ok(VDSStatus::Rejected),
            value@ != "accepted"@ && value@ != "pending"@ && value@ != "rejected"@ ==> r
                == Result::<VDSStatus, IapiError>::Err(IapiError::InvalidStatus),
    {
        proof {
            reveal_strlit("accepted");
            reveal_strlit("pending");
            reveal_strlit("rejected");
        }
        proof {
            assert("pending"@ != "accepted"@) by {
                assert("pending"@.len() == 7);
                assert("accepted"@.len() == 8);
            }
            assert("rejected"@ != "accepted"@) by {
                assert("rejected"@[0] == 'r');
                assert("accepted"@[0] == 'a');
            }
        }
        let accepted = "accepted".to_owned();
        let pending = "pending".to_owned();
        let rejected = "rejected".to_owned();
        if value.eq(&accepted) {
            Result::Ok(VDSStatus::Accepted)
        } else if value.eq(&pending) {
            Result::Ok(VDSStatus::Pending)
        } else if value.eq(&rejected) {
            Result::Ok(VDSStatus::Rejected)
        } else {
            Result::Err(IapiError::InvalidStatus)
        }
    }
}

/// A response with no identifiers.
fn bare_response(status: Status) -> (r: IAPIServerResponse)
    ensures
        r.status == status,
        r.vd_uuid is None,
        r.cpv_uuid is None,
        r.gp_uuid is None,
{
    IAPIServerResponse { status, vd_uuid: Option::None, cpv_uuid: Option::None, gp_uuid: Option::None }
}

/// The plain accepted response.
pub fn status_accepted() -> (r: IAPIServerResponse)
    ensures
        r.status == Status::Accepted,
        r.vd_uuid is None,
        r.cpv_uuid is None,
        r.gp_uuid is None,
{
    bare_response(Status::Accepted)
}

/// The plain rejected response.
pub fn status_rejected() -> (r: IAPIServerResponse)
    ensures
        r.status == Status::Rejected,
        r.vd_uuid is None,
        r.cpv_uuid is None,
        r.gp_uuid is None,
{
    bare_response(Status::Rejected)
}

/// An unexpected-error response carrying the message.
pub fn status_unknown(message: &str) -> (r: IAPIServerResponse)
    ensures
        r.status matches Status::UnexpectedError(m) && m@ == message@,
        r.vd_uuid is None,
        r.cpv_uuid is None,
        r.gp_uuid is None,
{
    bare_response(Status::UnexpectedError(message.to_owned()))
}

/// The healthy response.
pub fn status_health_ok() -> (r: IAPIServerResponse)
    ensures
        r.status == Status::Healthy,
        r.vd_uuid is None,
        r.cpv_uuid is None,
        r.gp_uuid is None,
{
    bare_response(Status::Healthy)
}

/// An accepted response naming a vulnerability discovery.
pub fn status_accepted_vd(uuid: String) -> (r: IAPIServerResponse)
    ensures
        r.status == Status::Accepted,
        r.vd_uuid == Option::Some(uuid),
        r.cpv_uuid is None,
        r.gp_uuid is None,
{
    IAPIServerResponse {
        status: Status::Accepted,
        vd_uuid: Option::Some(uuid),
        cpv_uuid: Option::None,
        gp_uuid: Option::None,
    }
}

/// An accepted response naming a vulnerability.
pub fn status_accepted_cpv(uuid: String) -> (r: IAPIServerResponse)
    ensures
        r.status == Status::Accepted,
        r.vd_uuid is None,
        r.cpv_uuid == Option::Some(uuid),
        r.gp_uuid is None,
{
    IAPIServerResponse {
        status: Status::Accepted,
        vd_uuid: Option::None,
        cpv_uuid: Option::Some(uuid),
        gp_uuid: Option::None,
    }
}

/// A pending response naming a vulnerability.
pub fn status_pending_cpv(uuid: String) -> (r: IAPIServerResponse)
    ensures
        r.status == Status::Pending,
        r.vd_uuid is None,
        r.cpv_uuid == Option::Some(uuid),
        r.gp_uuid is None,
{
    IAPIServerResponse {
        status: Status::Pending,
        vd_uuid: Option::None,
        cpv_uuid: Option::Some(uuid),
        gp_uuid: Option::None,
    }
}

/// A rejected response naming a vulnerability.
pub fn status_rejected_cpv(uuid: String) -> (r: IAPIServerResponse)
    ensures
        r.status == Status::Rejected,
        r.vd_uuid is None,
        r.cpv_uuid == Option::Some(uuid),
        r.gp_uuid is None,
{
    IAPIServerResponse {
        status: Status::Rejected,
        vd_uuid: Option::None,
        cpv_uuid: Option::Some(uuid),
        gp_uuid: Option::None,
    }
}

/// A response naming a generated patch, with the given status.
pub fn status_gp(uuid: String, status: Status) -> (r: IAPIServerResponse)
    ensures
        r.status == status,
        r.vd_uuid is None,
        r.cpv_uuid is None,
        r.gp_uuid == Option::Some(uuid),
{
    IAPIServerResponse {
        status,
        vd_uuid: Option::None,
        cpv_uuid: Option::None,
        gp_uuid: Option::Some(uuid),
    }
}

/// An accepted response naming a generated patch.
pub fn status_accepted_gp(uuid: String) -> (r: IAPIServerResponse)
    ensures
        r.status == Status::Accepted,
        r.vd_uuid is None,
        r.cpv_uuid is None,
        r.gp_uuid == Option::Some(uuid),
{
    status_gp(uuid, Status::Accepted)
}

/// A claimed discovery: the project, the understanding of the fault, and
/// the input that triggers it.
#[derive(Debug, Hash, PartialEq, Eq, Clone)]
pub struct ProofOfVulnerabilityDiscovery {
    pub cp_name: String,
    pub pou: ProofOfUnderstanding,
    pub pov: ProofOfVulnerability,
}

/// The commit and sanitizer a discovery claims.
#[derive(Debug, Hash, PartialEq, Eq, Clone)]
pub struct ProofOfUnderstanding {
    pub commit_sha1: String,
    pub sanitizer: String,
}

/// The harness and base64-encoded input of a discovery.
#[derive(Debug, Hash, PartialEq, Eq, Clone)]
pub struct ProofOfVulnerability {
    pub harness: String,
    pub data: String,
}

/// A request to validate a generated patch.
#[derive(Debug)]
pub struct GeneratePatchCheckRequest {
    pub cpv_uuid: String,
    pub data: String,
}

/// What the standard base64 engine, with padding, encodes the bytes as.
pub uninterp spec fn spec_base64_standard(bytes: Seq<u8>) -> Seq<char>;

/// What the standard base64 engine decodes the characters to, if anything.
pub uninterp spec fn spec_base64_decode(s: Seq<char>) -> Option<Seq<u8>>;

/// Relies on base64's `STANDARD` engine `encode`: the standard alphabet
/// with padding, a function of the input bytes alone, four characters for
/// every started group of three bytes. The length bound keeps the
/// engine's output-size computation from overflowing.
#[verifier::external_body]
fn b64_encode(bytes: &[u8]) -> (r: String)
    requires
        bytes@.len() <= usize::MAX / 4,
    ensures
        r@ == spec_base64_standard(bytes@),
        r@.len() == 4 * ((bytes@.len() + 2) / 3),
{
    base64::engine::general_purpose::STANDARD.encode(bytes)
}

/// Relies on base64's `STANDARD` engine `decode`: accepts or rejects, and
/// what it yields, depend on the input characters alone.
#[verifier::external_body]
fn b64_decode(s: &str) -> (r: Option<Vec<u8>>)
    ensures
        match r {
            Option::Some(v) => spec_base64_decode(s@) == Option::Some(v@),
            Option::None => spec_base64_decode(s@) is None,
        },
{
    base64::engine::general_purpose::STANDARD.decode(s).ok()
}

/// Whether a string parses as a UUID, and the version number it carries.
pub uninterp spec fn spec_uuid_version(s: Seq<char>) -> Option<int>;

/// Relies on uuid's `Uuid::parse_str` and `Uuid::get_version_num`: whether
/// the string parses, and the version field of the value it parses to, are
/// functions of the characters alone.
#[verifier::external_body]
fn uuid_version(s: &str) -> (r: Option<usize>)
    ensures
        match r {
            Option::Some(v) => spec_uuid_version(s@) == Option::Some(v as int),
            Option::None => spec_uuid_version(s@) is None,
        },
{
    match uuid::Uuid::parse_str(s) {
        Result::Ok(u) => Option::Some(u.get_version_num()),
        Result::Err(_) => Option::None,
    }
}

/// Validate a submission identifier: it must parse as a UUID and carry the
/// random version (v4). Fails with `NotAUuid` exactly when it does not
/// parse, and with `WrongUuidVersion` exactly when it parses to any other
/// version.
pub fn validate_uuid(vd_uuid: &str) -> (r: Result<(), IapiError>)
    ensures
        r == match spec_uuid_version(vd_uuid@) {
            Option::None => Result::<(), IapiError>::Err(IapiError::NotAUuid),
            Option::Some(v) => if v == 4 {
                Result::<(), IapiError>::Ok(())
            } else {
                Result::<(), IapiError>::Err(IapiError::WrongUuidVersion)
            },
        },
{
    match uuid_version(vd_uuid) {
        Option::None => Result::Err(IapiError::NotAUuid),
        Option::Some(v) => if v == 4 {
            Result::Ok(())
        } else {
            Result::Err(IapiError::WrongUuidVersion)
        },
    }
}

/// Build a proof of discovery: the input bytes go in base64-encoded.
pub fn vds_proof(
    cp_name: String,
    sanitizer_id: String,
    commit_sha1: String,
    harness_id: String,
    harness_input: &[u8],
) -> (p: ProofOfVulnerabilityDiscovery)
    requires
        harness_input@.len() <= usize::MAX / 4,
    ensures
        p.cp_name == cp_name,
        p.pou.commit_sha1 == commit_sha1,
        p.pou.sanitizer == sanitizer_id,
        p.pov.harness == harness_id,
        p.pov.data@ == spec_base64_standard(harness_input@),
        p.pov.data@.len() == 4 * ((harness_input@.len() + 2) / 3),
{
    let data = b64_encode(harness_input);
    ProofOfVulnerabilityDiscovery {
        cp_name,
        pou: ProofOfUnderstanding { commit_sha1, sanitizer: sanitizer_id },
        pov: ProofOfVulnerability { harness: harness_id, data },
    }
}

/// A sanitizer identifier is `id_` followed by what `u64` accepts as
/// decimal text.
pub open spec fn spec_valid_sanitizer_id(s: Seq<char>) -> bool {
    spec_chars_match_at(s, "id_"@, 0) && spec_is_u64_string(
        s.subrange("id_"@.len() as int, s.len() as int),
    )
}

/// How a discovery submission fares against the validation rules.
#[derive(PartialEq, Eq, Structural, Clone, Copy, Debug)]
pub enum VdsCheck {
    /// All checks passed.
    Valid,
    /// The claimed commit hash has the wrong length.
    InvalidSha1Length,
    /// The sanitizer identifier is not `id_` followed by a number.
    InvalidSanitizerId,
    /// The input field is not valid base64.
    UndecodableData,
    /// The decoded input exceeds the size budget; carries the decoded
    /// length.
    InputTooLarge(usize),
}

/// The size budget for a decoded discovery input.
pub const MAX_VDS_INPUT: usize = 2097152;

/// What validation of a discovery amounts to, checked in order: the commit
/// hash must be forty characters, the sanitizer identifier well-formed,
/// the input decodable base64, and the decoded input within budget.
pub open spec fn spec_vds_check(sha1: Seq<char>, sanitizer: Seq<char>, data: Seq<char>) -> VdsCheck {
    if sha1.len() != 40 {
        VdsCheck::InvalidSha1Length
    } else if !spec_valid_sanitizer_id(sanitizer) {
        VdsCheck::InvalidSanitizerId
    } else {
        match spec_base64_decode(data) {
            Option::None => VdsCheck::UndecodableData,
            Option::Some(bytes) => if bytes.len() > MAX_VDS_INPUT {
                VdsCheck::InputTooLarge(bytes.len() as usize)
            } else {
                VdsCheck::Valid
            },
        }
    }
}

/// Validate a discovery submission.
pub fn validate_vds_payload(payload: &ProofOfVulnerabilityDiscovery) -> (r: VdsCheck)
    ensures
        r == spec_vds_check(payload.pou.commit_sha1@, payload.pou.sanitizer@, payload.pov.data@),
{
    proof {
        reveal_strlit("id_");
    }
    if payload.pou.commit_sha1.as_str().unicode_len() != 40 {
        return VdsCheck::InvalidSha1Length;
    }
    let sanitizer = payload.pou.sanitizer.as_str();
    let sanitizer_len = sanitizer.unicode_len();
    if !str_starts_with(sanitizer, "id_") {
        return VdsCheck::InvalidSanitizerId;
    }
    let id_part = sanitizer.substring_char(3, sanitizer_len);
    if parse_u64(id_part).is_none() {
        return VdsCheck::InvalidSanitizerId;
    }
    match b64_decode(payload.pov.data.as_str()) {
        Option::None => VdsCheck::UndecodableData,
        Option::Some(bytes) => {
            if bytes.len() > MAX_VDS_INPUT {
                VdsCheck::InputTooLarge(bytes.len())
            } else {
                VdsCheck::Valid
            }
        },
    }
}

/// The size budget for an encoded patch.
pub const MAX_PATCH_SIZE: usize = 102400;

/// How a patch submission fares against the validation rules.
#[derive(PartialEq, Eq, Structural, Clone, Copy, Debug)]
pub enum PatchCheck {
    /// All checks passed.
    Valid,
    /// The vulnerability identifier fails UUID validation.
    BadUuid(IapiError),
    /// The patch exceeds the size budget; carries its length.
    PatchTooLarge(usize),
}

/// What validation of a patch submission amounts to: the identifier must
/// be a version-4 UUID and the encoded patch within budget.
pub open spec fn spec_patch_check(cpv_uuid: Seq<char>, data: Seq<char>) -> PatchCheck {
    match spec_uuid_version(cpv_uuid) {
        Option::None => PatchCheck::BadUuid(IapiError::NotAUuid),
        Option::Some(v) => if v != 4 {
            PatchCheck::BadUuid(IapiError::WrongUuidVersion)
        } else if data.len() > MAX_PATCH_SIZE {
            PatchCheck::PatchTooLarge(data.len() as usize)
        } else {
            PatchCheck::Valid
        },
    }
}

/// Validate a patch submission.
pub fn validate_patch_request(payload: &GeneratePatchCheckRequest) -> (r: PatchCheck)
    ensures
        r == spec_patch_check(payload.cpv_uuid@, payload.data@),
{
    match validate_uuid(payload.cpv_uuid.as_str()) {
        Result::Err(e) => PatchCheck::BadUuid(e),
        Result::Ok(()) => {
            let dlen = payload.data.as_str().unicode_len();
            if dlen > MAX_PATCH_SIZE {
                PatchCheck::PatchTooLarge(dlen)
            } else {
                PatchCheck::Valid
            }
        },
    }
}

/// The discoveries already submitted, so that a duplicate is rejected
/// without reaching the remote server.
pub struct DiscoveryCache {
    seen: Vec<ProofOfVulnerabilityDiscovery>,
}

/// Whether two discoveries carry the same strings.
pub open spec fn spec_same_proof(a: ProofOfVulnerabilityDiscovery, b: ProofOfVulnerabilityDiscovery) -> bool {
    a.cp_name@ == b.cp_name@ && a.pou.commit_sha1@ == b.pou.commit_sha1@ && a.pou.sanitizer@
        == b.pou.sanitizer@ && a.pov.harness@ == b.pov.harness@ && a.pov.data@ == b.pov.data@
}

impl ProofOfVulnerabilityDiscovery {
    /// Whether this discovery carries the same strings as another.
    pub fn same_as(&self, other: &ProofOfVulnerabilityDiscovery) -> (r: bool)
        ensures
            r == spec_same_proof(*self, *other),
    {
        self.cp_name.eq(&other.cp_name) && self.pou.commit_sha1.eq(&other.pou.commit_sha1)
            && self.pou.sanitizer.eq(&other.pou.sanitizer) && self.pov.harness.eq(
            &other.pov.harness,
        ) && self.pov.data.eq(&other.pov.data)
    }
}

impl DiscoveryCache {
    /// The discoveries cached so far.
    pub closed spec fn view(&self) -> Seq<ProofOfVulnerabilityDiscovery> {
        self.seen@
    }

    pub fn new() -> (r: Self)
        ensures
            r@ == Seq::<ProofOfVulnerabilityDiscovery>::empty(),
    {
        DiscoveryCache { seen: Vec::new() }
    }

    /// Whether an equal discovery was cached before.
    pub fn contains(&self, p: &ProofOfVulnerabilityDiscovery) -> (r: bool)
        ensures
            r == exists|i: int| 0 <= i < self@.len() && spec_same_proof(self@[i], *p),
    {
        let n = self.seen.len();
        let mut i: usize = 0;
        while i < n
            invariant
                i <= n,
                n == self@.len(),
                forall|k: int| 0 <= k < i ==> !spec_same_proof(self@[k], *p),
            decreases n - i,
        {
            let candidate = &self.seen[i];
            if candidate.same_as(p) {
                return true;
            }
            i = i + 1;
        }
        false
    }

    /// Cache one discovery.
    pub fn insert(&mut self, p: ProofOfVulnerabilityDiscovery)
        ensures
            final(self)@ == old(self)@.push(p),
    {
        self.seen.push(p);
    }
}

} // verus!
