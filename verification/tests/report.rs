use arrakis_integration::report::{
    agreed_note, committed_note, compiled_note, consumer_ran_note, describe, fetched_note,
    forge_statement, insert_statement, log_note, publisher_ran_note, pushed_note,
    release_message, select_statement, verified_note, LinkStats, TransferStats,
    CREATE_RELEASES,
};

fn stats() -> TransferStats {
    TransferStats {
        ticks: 170,
        calls: 4,
        client_to_server: LinkStats { sent: 40, dropped: 4, duplicated: 2, corrupted: 1 },
        server_to_client: LinkStats { sent: 27, dropped: 2, duplicated: 4, corrupted: 0 },
    }
}

#[test]
fn describe_adds_up_both_directions() {
    assert_eq!(
        describe(&stats()),
        "170 ticks, 4 calls, 67 datagrams sent, 6 dropped, 6 duplicated, 1 corrupted"
    );
}

#[test]
fn describe_of_a_clean_transfer() {
    let clean = LinkStats { sent: 0, dropped: 0, duplicated: 0, corrupted: 0 };
    let s = TransferStats { ticks: 7, calls: 3, client_to_server: clean, server_to_client: clean };
    assert_eq!(describe(&s), "7 ticks, 3 calls, 0 datagrams sent, 0 dropped, 0 duplicated, 0 corrupted");
}

#[test]
fn transfer_notes_name_their_direction() {
    assert_eq!(
        pushed_note(&stats()),
        "pushed the repository to the server: 170 ticks, 4 calls, 67 datagrams sent, 6 dropped, 6 duplicated, 1 corrupted"
    );
    assert_eq!(
        fetched_note(&stats()),
        "consumer fetched the release from the server: 170 ticks, 4 calls, 67 datagrams sent, 6 dropped, 6 duplicated, 1 corrupted"
    );
}

#[test]
fn compilation_and_runs_are_recorded() {
    assert_eq!(
        compiled_note(321, 4096),
        "compiled 321 bytes of source to 4096 bytes of mentat bytecode (typed SSA built directly, no AST)"
    );
    assert_eq!(publisher_ran_note(775), "publisher ran the bytecode locally: main() = 775");
    assert_eq!(publisher_ran_note(-12), "publisher ran the bytecode locally: main() = -12");
    assert_eq!(
        consumer_ran_note(775),
        "consumer ran the fetched bytecode: main() = 775, identical to the publisher's"
    );
}

#[test]
fn commits_are_shown_by_twelve_characters() {
    let id = "ea8403fa9104aabbccddeeff00112233";
    assert_eq!(
        committed_note("v1", id, 5, 2048),
        "committed release v1 as ea8403fa9104 (5 content-addressed objects, 2048 bytes)"
    );
    assert_eq!(
        agreed_note(id, 2501, 11, 11, 3, true),
        "3 nodes (storage on sietch) agreed on release/latest = ea8403fa9104 after 2501 ticks, 11 crashes, 11 restarts, 3 leader terms, under partitions"
    );
    assert_eq!(
        agreed_note(id, 260, 0, 0, 1, false),
        "3 nodes (storage on sietch) agreed on release/latest = ea8403fa9104 after 260 ticks, 0 crashes, 0 restarts, 1 leader terms"
    );
}

#[test]
fn storage_and_verification_are_recorded() {
    assert_eq!(
        log_note(9000),
        "the repository is an append-only checksummed log: 9000 bytes on disk, no byte overwritten"
    );
    assert_eq!(
        verified_note("0123456789abcdef0123"),
        "consumer verified every object by hash; artifact sha256 0123456789abcdef... matches the manifest, the SQL registry and the publisher"
    );
}

#[test]
fn registry_statements_name_the_release() {
    assert_eq!(
        CREATE_RELEASES,
        "CREATE TABLE releases (version TEXT PRIMARY KEY, commit_id TEXT NOT NULL, artifact_bytes INTEGER NOT NULL, artifact_sha TEXT NOT NULL)"
    );
    assert_eq!(
        insert_statement("v1", "abc", 99, "ff00"),
        "INSERT INTO releases VALUES ('v1', 'abc', 99, 'ff00')"
    );
    assert_eq!(
        forge_statement("v1"),
        format!("UPDATE releases SET artifact_sha = '{}' WHERE version = 'v1'", "0".repeat(64))
    );
    assert_eq!(
        select_statement("v2"),
        "SELECT version, commit_id, artifact_bytes, artifact_sha FROM releases WHERE version = 'v2'"
    );
    assert_eq!(release_message("v1"), "release v1");
}
