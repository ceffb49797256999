use arrakis_integration::pipeline::{
    check_attenuation, check_consumer_head, check_exactly_once, check_fetched,
    check_heads_agree, check_main_signature, check_registry_row, check_registry_rows, check_revoked,
    check_same_result, check_server_head, fail, flip_middle_bit, hex, manifest, object_key,
};
use arrakis_integration::{PipelineError, Tamper};

#[test]
fn fail_carries_its_message() {
    let r: Result<u8, PipelineError> = fail("broken".to_string());
    assert_eq!(r.unwrap_err().0, "broken");
}

#[test]
fn hex_writes_two_lower_case_digits_per_byte() {
    assert_eq!(hex(&[]), "");
    assert_eq!(hex(&[0x00, 0x0f, 0xab, 0xff, 0x10]), "000fabff10");
    assert_eq!(hex(&[0u8; 32]).len(), 64);
}

#[test]
fn hex_of_different_bytes_differs() {
    assert_ne!(hex(&[0x01, 0x23]), hex(&[0x12, 0x03]));
    assert_ne!(hex(&[0xa0]), hex(&[0x0a]));
}

#[test]
fn main_must_take_no_parameters() {
    assert!(check_main_signature(Some(0)).is_ok());
    let e = check_main_signature(Some(1)).unwrap_err();
    assert_eq!(e.0, "the source must define a zero-argument `fn main() -> i64`");
    assert!(check_main_signature(None).is_err());
}

#[test]
fn the_registry_must_return_exactly_one_row() {
    assert!(check_registry_rows(1).is_ok());
    assert_eq!(
        check_registry_rows(0).unwrap_err().0,
        "the registry did not return exactly the release just inserted"
    );
    assert!(check_registry_rows(2).is_err());
}

#[test]
fn every_request_is_executed_exactly_once() {
    assert!(check_exactly_once(4, 4).is_ok());
    assert_eq!(
        check_exactly_once(5, 4).unwrap_err().0,
        "a request executed more than once on the server"
    );
}

#[test]
fn the_server_head_must_be_the_published_commit() {
    let commit = vec![7u8; 32];
    assert!(check_server_head(&Some(commit.clone()), &commit).is_ok());
    assert_eq!(
        check_server_head(&None, &commit).unwrap_err().0,
        "the server's main is not the published commit"
    );
    assert!(check_server_head(&Some(vec![8u8; 32]), &commit).is_err());
}

#[test]
fn all_nodes_must_agree_on_the_head() {
    let head = b"ea8403fa9104".to_vec();
    let agree = vec![Some(head.clone()), Some(head.clone()), Some(head.clone())];
    assert!(check_heads_agree(&agree, &head).is_ok());
    let missing = vec![Some(head.clone()), None, Some(head.clone())];
    assert_eq!(
        check_heads_agree(&missing, &head).unwrap_err().0,
        "the consensus nodes do not all agree on the published head"
    );
    let other = vec![Some(head.clone()), Some(head.clone()), Some(b"other".to_vec())];
    assert!(check_heads_agree(&other, &head).is_err());
}

#[test]
fn the_consumer_must_hold_the_complete_agreed_head() {
    let head = vec![1u8, 2, 3];
    assert!(check_consumer_head(&Some(head.clone()), &head, true).is_ok());
    assert_eq!(
        check_consumer_head(&Some(head.clone()), &head, false).unwrap_err().0,
        "the consumer does not hold the agreed head's complete history"
    );
    assert!(check_consumer_head(&Some(vec![1u8]), &head, true).is_err());
    assert!(check_consumer_head(&None, &head, true).is_err());
}

#[test]
fn manifest_lists_version_hash_and_length() {
    assert_eq!(
        manifest("v1", "abcd", 1234),
        "version=v1\nartifact_sha256=abcd\nartifact_bytes=1234\n"
    );
    assert_eq!(manifest("", "", 0), "version=\nartifact_sha256=\nartifact_bytes=0\n");
}

#[test]
fn an_intact_release_passes_the_consumers_check() {
    let artifact = b"bytecode".to_vec();
    let sha = hex(&[0x12; 32]);
    let m = manifest("v1", &sha, artifact.len());
    assert!(check_fetched(&artifact, &artifact, &sha, &sha, &sha, &m).is_ok());
}

#[test]
fn a_lying_registry_is_reported_as_a_mismatch() {
    let artifact = b"bytecode".to_vec();
    let sha = hex(&[0x12; 32]);
    let forged = "0".repeat(64);
    let m = manifest("v1", &sha, artifact.len());
    let e = check_fetched(&artifact, &artifact, &sha, &sha, &forged, &m).unwrap_err();
    assert!(e.0.contains("does not match what was published"));
}

#[test]
fn any_altered_part_of_a_release_is_caught() {
    let artifact = b"bytecode".to_vec();
    let sha = hex(&[0x12; 32]);
    let m = manifest("v1", &sha, artifact.len());
    let mut flipped = artifact.clone();
    flip_middle_bit(&mut flipped);
    assert!(check_fetched(&flipped, &artifact, &sha, &sha, &sha, &m).is_err());
    let other = hex(&[0x13; 32]);
    assert!(check_fetched(&artifact, &artifact, &other, &sha, &sha, &m).is_err());
    let m2 = manifest("v1", &other, artifact.len());
    assert!(check_fetched(&artifact, &artifact, &sha, &sha, &sha, &m2).is_err());
    assert!(check_fetched(&artifact, &artifact, &sha, &sha, &sha, "").is_err());
}

#[test]
fn the_manifest_line_may_stand_anywhere_in_the_manifest() {
    let a = b"x".to_vec();
    let text = "first\nartifact_sha256=ff\n";
    assert!(check_fetched(&a, &a, "ff", "ff", "ff", text).is_ok());
    assert!(check_fetched(&a, &a, "ff", "ff", "ff", "artifact_sha256=f").is_err());
}

#[test]
fn the_runner_capability_must_be_attenuated() {
    assert!(check_attenuation(false, false).is_ok());
    assert_eq!(
        check_attenuation(true, false).unwrap_err().0,
        "the runner's capability was not attenuated: it can write"
    );
    assert_eq!(
        check_attenuation(false, true).unwrap_err().0,
        "a capability was widened by derivation"
    );
    assert_eq!(
        check_attenuation(true, true).unwrap_err().0,
        "the runner's capability was not attenuated: it can write"
    );
}

#[test]
fn a_revoked_capability_must_stop_working() {
    assert!(check_revoked(true).is_ok());
    assert_eq!(
        check_revoked(false).unwrap_err().0,
        "the runner's capability still works after revocation"
    );
}

#[test]
fn both_sides_must_compute_the_same_result() {
    assert!(check_same_result(775, 775).is_ok());
    assert_eq!(
        check_same_result(-3, 775).unwrap_err().0,
        "consumer computed -3, publisher computed 775"
    );
    assert_eq!(
        check_same_result(i64::MIN, i64::MAX).unwrap_err().0,
        "consumer computed -9223372036854775808, publisher computed 9223372036854775807"
    );
}

#[test]
fn object_keys_start_with_o() {
    assert_eq!(object_key(&[1, 2, 3]), vec![b'o', 1, 2, 3]);
    assert_eq!(object_key(&[]), vec![b'o']);
}

#[test]
fn flipping_changes_exactly_the_middle_byte() {
    let mut b = vec![0u8, 0, 0, 0, 0];
    flip_middle_bit(&mut b);
    assert_eq!(b, vec![0, 0, 1, 0, 0]);
    flip_middle_bit(&mut b);
    assert_eq!(b, vec![0, 0, 0, 0, 0]);
    let mut one = vec![0xffu8];
    flip_middle_bit(&mut one);
    assert_eq!(one, vec![0xfe]);
    let mut even = vec![1u8, 2, 3, 4];
    flip_middle_bit(&mut even);
    assert_eq!(even, vec![1, 2, 2, 4]);
}

#[test]
fn tamper_kinds_are_distinct() {
    assert_ne!(Tamper::Nothing, Tamper::ServerBlob);
    assert_ne!(Tamper::ServerBlob, Tamper::RegistryHash);
    let t = Tamper::RegistryHash;
    let u = t;
    assert_eq!(t, u);
}

#[test]
fn the_row_read_back_must_be_the_release_inserted() {
    let v = Some("v1".to_string());
    let c = Some("ea8403fa9104".to_string());
    assert!(check_registry_row(&v, &c, Some(4096), "v1", "ea8403fa9104", 4096).is_ok());
    let msg = "the registry did not return exactly the release just inserted";
    assert_eq!(check_registry_row(&Some("v2".to_string()), &c, Some(4096), "v1", "ea8403fa9104", 4096).unwrap_err().0, msg);
    assert_eq!(check_registry_row(&v, &Some("other".to_string()), Some(4096), "v1", "ea8403fa9104", 4096).unwrap_err().0, msg);
    assert_eq!(check_registry_row(&v, &c, Some(4095), "v1", "ea8403fa9104", 4096).unwrap_err().0, msg);
    assert!(check_registry_row(&v, &c, Some(-1), "v1", "ea8403fa9104", 4096).is_err());
    assert!(check_registry_row(&None, &c, Some(4096), "v1", "ea8403fa9104", 4096).is_err());
    assert!(check_registry_row(&v, &None, Some(4096), "v1", "ea8403fa9104", 4096).is_err());
    assert!(check_registry_row(&v, &c, None, "v1", "ea8403fa9104", 4096).is_err());
}
