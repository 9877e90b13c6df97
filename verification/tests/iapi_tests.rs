use kernel_fuzz::iapi::{status_accepted, status_accepted_cpv, status_accepted_gp,
    status_accepted_vd, status_gp, status_health_ok, status_pending_cpv, status_rejected,
    status_rejected_cpv, status_unknown, validate_patch_request, validate_uuid,
    validate_vds_payload, vds_proof, DiscoveryCache, GeneratePatchCheckRequest, IapiError,
    PatchCheck, ProofOfUnderstanding, ProofOfVulnerability, ProofOfVulnerabilityDiscovery, Status,
    VDSStatus, VdsCheck};

#[test]
fn response_status() {
    assert_eq!(status_accepted().status, Status::Accepted);

    assert_eq!(status_rejected().status, Status::Rejected);
    assert_eq!(
        status_unknown("Foo").status,
        Status::UnexpectedError("Foo".into())
    );
    assert_eq!(status_health_ok().status, Status::Healthy);
}

#[test]
fn responses_carry_the_right_identifier() {
    let vd = status_accepted_vd("17820e40-2a2b-4de1-931f-72cefb6d490d".to_string());
    assert_eq!(vd.status, Status::Accepted);
    assert_eq!(vd.vd_uuid.as_deref(), Some("17820e40-2a2b-4de1-931f-72cefb6d490d"));
    assert_eq!(vd.cpv_uuid, None);
    assert_eq!(vd.gp_uuid, None);

    let cpv = status_accepted_cpv("a".to_string());
    assert_eq!(cpv.cpv_uuid.as_deref(), Some("a"));
    assert_eq!(status_pending_cpv("b".to_string()).status, Status::Pending);
    assert_eq!(status_rejected_cpv("c".to_string()).status, Status::Rejected);

    let gp = status_accepted_gp("d".to_string());
    assert_eq!(gp.gp_uuid.as_deref(), Some("d"));
    assert_eq!(status_gp("e".to_string(), Status::Pending).status, Status::Pending);
}

#[test]
fn vds_status_reads_the_three_words() {
    assert_eq!(VDSStatus::try_from("accepted".to_string()), Ok(VDSStatus::Accepted));
    assert_eq!(VDSStatus::try_from("pending".to_string()), Ok(VDSStatus::Pending));
    assert_eq!(VDSStatus::try_from("rejected".to_string()), Ok(VDSStatus::Rejected));
    assert_eq!(
        VDSStatus::try_from("Accepted".to_string()),
        Err(IapiError::InvalidStatus)
    );
}

#[test]
fn uuid_validation_wants_version_four() {
    assert_eq!(validate_uuid("17820e40-2a2b-4de1-931f-72cefb6d490d"), Ok(()));
    // A version-3 UUID parses but carries the wrong version.
    assert_eq!(
        validate_uuid("02f09a3f-1624-3b1d-8409-44eff7708208"),
        Err(IapiError::WrongUuidVersion)
    );
    assert_eq!(validate_uuid("not-a-uuid"), Err(IapiError::NotAUuid));
}

fn sample_payload(sha1: &str, sanitizer: &str, data: &str) -> ProofOfVulnerabilityDiscovery {
    ProofOfVulnerabilityDiscovery {
        cp_name: "linux kernel".to_string(),
        pou: ProofOfUnderstanding {
            commit_sha1: sha1.to_string(),
            sanitizer: sanitizer.to_string(),
        },
        pov: ProofOfVulnerability {
            harness: "id_2".to_string(),
            data: data.to_string(),
        },
    }
}

const GOOD_SHA1: &str = "2923ffa6e0572ee6572245f980acfcfb872fcf74";

#[test]
fn discovery_validation_accepts_the_sample() {
    let payload = sample_payload(GOOD_SHA1, "id_1", "aGVsbG8=");
    assert_eq!(validate_vds_payload(&payload), VdsCheck::Valid);
}

#[test]
fn discovery_validation_rejects_short_sha1() {
    let payload = sample_payload("2923ffa6", "id_1", "aGVsbG8=");
    assert_eq!(validate_vds_payload(&payload), VdsCheck::InvalidSha1Length);
}

#[test]
fn discovery_validation_rejects_bad_sanitizer_ids() {
    for bad in ["1", "idx_1", "id_", "id_abc", "sid_1"] {
        let payload = sample_payload(GOOD_SHA1, bad, "aGVsbG8=");
        assert_eq!(validate_vds_payload(&payload), VdsCheck::InvalidSanitizerId, "{bad}");
    }
}

#[test]
fn discovery_validation_rejects_undecodable_data() {
    let payload = sample_payload(GOOD_SHA1, "id_1", "!!! not base64 !!!");
    assert_eq!(validate_vds_payload(&payload), VdsCheck::UndecodableData);
}

#[test]
fn discovery_validation_rejects_oversized_input() {
    // 699051 quartets decode to 2097153 bytes: one past the budget.
    let data = "AAAA".repeat(699051);
    let payload = sample_payload(GOOD_SHA1, "id_1", &data);
    assert_eq!(validate_vds_payload(&payload), VdsCheck::InputTooLarge(2097153));
}

#[test]
fn patch_validation_checks_uuid_and_size() {
    let ok = GeneratePatchCheckRequest {
        cpv_uuid: "17820e40-2a2b-4de1-931f-72cefb6d490d".to_string(),
        data: "--- a patch".to_string(),
    };
    assert_eq!(validate_patch_request(&ok), PatchCheck::Valid);

    let bad_uuid = GeneratePatchCheckRequest {
        cpv_uuid: "nope".to_string(),
        data: "--- a patch".to_string(),
    };
    assert_eq!(
        validate_patch_request(&bad_uuid),
        PatchCheck::BadUuid(IapiError::NotAUuid)
    );

    let wrong_version = GeneratePatchCheckRequest {
        cpv_uuid: "02f09a3f-1624-3b1d-8409-44eff7708208".to_string(),
        data: "--- a patch".to_string(),
    };
    assert_eq!(
        validate_patch_request(&wrong_version),
        PatchCheck::BadUuid(IapiError::WrongUuidVersion)
    );

    let huge = GeneratePatchCheckRequest {
        cpv_uuid: "17820e40-2a2b-4de1-931f-72cefb6d490d".to_string(),
        data: "c".repeat(100 * 1024 + 1),
    };
    assert_eq!(validate_patch_request(&huge), PatchCheck::PatchTooLarge(102401));
}

#[test]
fn proof_builder_encodes_the_input() {
    let proof = vds_proof(
        "linux kernel".to_string(),
        "id_1".to_string(),
        GOOD_SHA1.to_string(),
        "id_2".to_string(),
        b"hello",
    );
    assert_eq!(proof.pov.data.as_str(), "aGVsbG8=");
    assert_eq!(proof.cp_name.as_str(), "linux kernel");
    assert_eq!(proof.pou.sanitizer.as_str(), "id_1");
    // What went in base64-encoded validates as decodable on the way out.
    assert_eq!(validate_vds_payload(&proof), VdsCheck::Valid);
}

#[test]
fn duplicate_discoveries_are_detected() {
    let mut cache = DiscoveryCache::new();
    let first = sample_payload(GOOD_SHA1, "id_1", "aGVsbG8=");
    assert!(!cache.contains(&first));
    cache.insert(first.clone());
    assert!(cache.contains(&first));
    let other = sample_payload(GOOD_SHA1, "id_2", "aGVsbG8=");
    assert!(!cache.contains(&other));
}
