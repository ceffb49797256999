use arrakis_integration::operation::{Operation, Stage};
use arrakis_integration::pipeline::{hex, manifest};
use arrakis_integration::report::{LinkStats, TransferStats};

const COMMIT: &str = "ea8403fa9104aabbccddeeff00112233ea8403fa9104aabbccddeeff00112233";

fn stats() -> TransferStats {
    let l = LinkStats { sent: 10, dropped: 1, duplicated: 0, corrupted: 0 };
    TransferStats { ticks: 7, calls: 3, client_to_server: l, server_to_client: l }
}

fn some(s: &str) -> Option<String> {
    Some(s.to_string())
}

/// An operation taken through every step up to the consumer's fetch.
fn up_to_agreed(sabotage: bool) -> (Operation, Vec<u8>, String) {
    let artifact = b"bytecode!".to_vec();
    let sha = hex(&[0x5a; 32]);
    let commit_id = vec![9u8; 32];
    let mut op = Operation::new();
    op.compiled(120, &artifact);
    op.ran_locally(775);
    op.committed("v1", COMMIT, 5, 2048, 4096);
    op.indexed(1, &some("v1"), &some(COMMIT), Some(artifact.len() as i64), "v1", COMMIT, "[rows]")
        .unwrap();
    op.pushed(3, 3, &stats(), &Some(commit_id.clone()), &commit_id).unwrap();
    if sabotage {
        op.sabotaged();
    }
    let heads = vec![Some(COMMIT.as_bytes().to_vec()); 3];
    op.agreed(&heads, COMMIT.as_bytes(), COMMIT, 260, 0, 0, 1, false).unwrap();
    (op, artifact, sha)
}

#[test]
fn a_successful_operation_notes_every_layer_in_order() {
    let (mut op, artifact, sha) = up_to_agreed(false);
    let head = vec![4u8; 32];
    let m = manifest("v1", &sha, artifact.len());
    op.fetched(3, 3, &stats(), &Some(head.clone()), &head, true, artifact.clone(), &sha, &sha, &sha, &m)
        .unwrap();
    assert!(op.artifact_to_run().is_none());
    op.attenuated(false, false).unwrap();
    assert_eq!(op.artifact_to_run(), Some(&artifact));
    op.ran_remotely(775).unwrap();
    assert!(op.artifact_to_run().is_none());
    op.revoked(true).unwrap();
    assert_eq!(op.stage, Stage::Revoked);
    assert_eq!(
        op.trace.layers(),
        vec!["chakobsa", "mentat", "ghola", "sietch", "choam", "distrans", "landsraad", "muaddib"]
    );
    assert_eq!(op.trace.steps.len(), 12);
    assert_eq!(
        op.trace.steps[4].what,
        "indexed the release in SQL and read it back: [rows]"
    );
    assert_eq!(
        op.trace.steps[11].what,
        "revoked the region: the runner's capability no longer works"
    );
}

#[test]
fn a_sabotaged_blob_is_noted_and_stopped_at_the_consumers_check() {
    let (mut op, artifact, sha) = up_to_agreed(true);
    assert_eq!(op.trace.steps.last().unwrap().layer, "landsraad");
    assert_eq!(
        op.trace.steps[op.trace.steps.len() - 2].what,
        "SABOTAGE: flipped one bit of the artifact blob stored on the server"
    );
    let head = vec![4u8; 32];
    let m = manifest("v1", &sha, artifact.len());
    let mut flipped = artifact.clone();
    flipped[4] ^= 1;
    let steps = op.trace.steps.len();
    let e = op
        .fetched(3, 3, &stats(), &Some(head.clone()), &head, true, flipped, &sha, &sha, &sha, &m)
        .unwrap_err();
    assert_eq!(e.0, "the fetched artifact does not match what was published");
    assert_eq!(op.stage, Stage::Agreed);
    assert_eq!(op.trace.steps.len(), steps);
    assert!(op.artifact_to_run().is_none());
}

#[test]
fn a_forged_registry_hash_is_stopped_at_the_consumers_check() {
    let (mut op, artifact, sha) = up_to_agreed(false);
    let head = vec![4u8; 32];
    let m = manifest("v1", &sha, artifact.len());
    let forged = "0".repeat(64);
    let e = op
        .fetched(3, 3, &stats(), &Some(head.clone()), &head, true, artifact, &sha, &sha, &forged, &m)
        .unwrap_err();
    assert!(e.0.contains("does not match what was published"));
    assert_eq!(op.stage, Stage::Agreed);
}

#[test]
fn the_consumer_checks_come_in_order() {
    let (mut op, artifact, sha) = up_to_agreed(false);
    let head = vec![4u8; 32];
    let m = manifest("v1", &sha, artifact.len());
    let e = op
        .fetched(4, 3, &stats(), &Some(head.clone()), &head, true, artifact.clone(), &sha, &sha, &sha, &m)
        .unwrap_err();
    assert_eq!(e.0, "a request executed more than once on the server");
    let e = op
        .fetched(3, 3, &stats(), &Some(head.clone()), &head, false, artifact.clone(), &sha, &sha, &sha, &m)
        .unwrap_err();
    assert_eq!(e.0, "the consumer does not hold the agreed head's complete history");
}

#[test]
fn a_failed_step_leaves_the_operation_as_it_was() {
    let artifact = b"x".to_vec();
    let mut op = Operation::new();
    op.compiled(1, &artifact);
    op.ran_locally(1);
    op.committed("v1", COMMIT, 1, 1, 1);
    let e = op
        .indexed(2, &some("v1"), &some(COMMIT), Some(1), "v1", COMMIT, "")
        .unwrap_err();
    assert_eq!(e.0, "the registry did not return exactly the release just inserted");
    assert!(op
        .indexed(1, &some("v1"), &some(COMMIT), Some(2), "v1", COMMIT, "")
        .is_err());
    assert_eq!(op.stage, Stage::Committed);
    assert_eq!(op.trace.steps.len(), 4);
    op.indexed(1, &some("v1"), &some(COMMIT), Some(1), "v1", COMMIT, "").unwrap();
    let id = vec![1u8];
    let e = op.pushed(2, 3, &stats(), &Some(id.clone()), &id).unwrap_err();
    assert_eq!(e.0, "a request executed more than once on the server");
    let e = op.pushed(3, 3, &stats(), &None, &id).unwrap_err();
    assert_eq!(e.0, "the server's main is not the published commit");
    assert_eq!(op.stage, Stage::Indexed);
}

#[test]
fn the_capability_and_the_result_are_checked_before_finishing() {
    let (mut op, artifact, sha) = up_to_agreed(false);
    let head = vec![4u8; 32];
    let m = manifest("v1", &sha, artifact.len());
    op.fetched(3, 3, &stats(), &Some(head.clone()), &head, true, artifact, &sha, &sha, &sha, &m)
        .unwrap();
    assert_eq!(
        op.attenuated(true, false).unwrap_err().0,
        "the runner's capability was not attenuated: it can write"
    );
    assert!(op.artifact_to_run().is_none());
    op.attenuated(false, false).unwrap();
    assert_eq!(
        op.ran_remotely(774).unwrap_err().0,
        "consumer computed 774, publisher computed 775"
    );
    op.ran_remotely(775).unwrap();
    assert_eq!(
        op.revoked(false).unwrap_err().0,
        "the runner's capability still works after revocation"
    );
    assert_eq!(op.stage, Stage::RanRemotely);
}
