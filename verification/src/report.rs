//! The text that the trace records for each layer, and the statements that
//! index a release in the SQL registry.

use vstd::prelude::*;

use crate::text::{occurs_in, decimal, push_decimal, push_prefix, push_signed_decimal, signed_decimal};

verus! {

/// What one direction of a simulated network did with the datagrams sent
/// over it.
#[derive(Debug, Clone, Copy, PartialEq, Eq, Structural)]
pub struct LinkStats {
    pub sent: u64,
    pub dropped: u64,
    pub duplicated: u64,
    pub corrupted: u64,
}

/// What one repository transfer over a simulated network cost.
#[derive(Debug, Clone, Copy, PartialEq, Eq, Structural)]
pub struct TransferStats {
    pub ticks: u64,
    pub calls: u64,
    pub client_to_server: LinkStats,
    pub server_to_client: LinkStats,
}

/// The counts of a transfer, both directions added up, fit in 64 bits.
pub open spec fn totals_fit(s: TransferStats) -> bool {
    &&& s.client_to_server.sent + s.server_to_client.sent <= u64::MAX
    &&& s.client_to_server.dropped + s.server_to_client.dropped <= u64::MAX
    &&& s.client_to_server.duplicated + s.server_to_client.duplicated <= u64::MAX
    &&& s.client_to_server.corrupted + s.server_to_client.corrupted <= u64::MAX
}

/// A transfer in words: its ticks and calls, and the datagrams of both
/// directions sent, dropped, duplicated and corrupted.
pub open spec fn description(s: TransferStats) -> Seq<char> {
    decimal(s.ticks as nat) + " ticks, "@ + decimal(s.calls as nat) + " calls, "@ + decimal(
        (s.client_to_server.sent + s.server_to_client.sent) as nat,
    ) + " datagrams sent, "@ + decimal(
        (s.client_to_server.dropped + s.server_to_client.dropped) as nat,
    ) + " dropped, "@ + decimal(
        (s.client_to_server.duplicated + s.server_to_client.duplicated) as nat,
    ) + " duplicated, "@ + decimal(
        (s.client_to_server.corrupted + s.server_to_client.corrupted) as nat,
    ) + " corrupted"@
}

fn push_description(out: &mut String, s: &TransferStats)
    requires
        totals_fit(*s),
    ensures
        final(out)@ == old(out)@ + description(*s),
{
    push_decimal(out, s.ticks);
    out.append(" ticks, ");
    push_decimal(out, s.calls);
    out.append(" calls, ");
    push_decimal(out, s.client_to_server.sent + s.server_to_client.sent);
    out.append(" datagrams sent, ");
    push_decimal(out, s.client_to_server.dropped + s.server_to_client.dropped);
    out.append(" dropped, ");
    push_decimal(out, s.client_to_server.duplicated + s.server_to_client.duplicated);
    out.append(" duplicated, ");
    push_decimal(out, s.client_to_server.corrupted + s.server_to_client.corrupted);
    out.append(" corrupted");
    assert(out@ =~= old(out)@ + description(*s));
}

/// Describes a transfer in words.
pub fn describe(s: &TransferStats) -> (d: String)
    requires
        totals_fit(*s),
    ensures
        d@ == description(*s),
{
    let mut d = String::new();
    push_description(&mut d, s);
    assert(d@ =~= description(*s));
    d
}

/// The first layer's record: how much source became how much bytecode.
pub open spec fn compiled_text(source_bytes: nat, artifact_bytes: nat) -> Seq<char> {
    "compiled "@ + decimal(source_bytes) + " bytes of source to "@ + decimal(artifact_bytes)
        + " bytes of mentat bytecode (typed SSA built directly, no AST)"@
}

/// The record of the compilation of `source_bytes` bytes of source into an
/// artifact of `artifact_bytes` bytes.
pub fn compiled_note(source_bytes: usize, artifact_bytes: usize) -> (t: String)
    ensures
        t@ == compiled_text(source_bytes as nat, artifact_bytes as nat),
{
    let mut t = String::new();
    t.append("compiled ");
    push_decimal(&mut t, source_bytes as u64);
    t.append(" bytes of source to ");
    push_decimal(&mut t, artifact_bytes as u64);
    t.append(" bytes of mentat bytecode (typed SSA built directly, no AST)");
    assert(t@ =~= compiled_text(source_bytes as nat, artifact_bytes as nat));
    t
}

/// The publisher's record of the reference result.
pub open spec fn publisher_ran_text(result: int) -> Seq<char> {
    "publisher ran the bytecode locally: main() = "@ + signed_decimal(result)
}

/// The record of the publisher's local run, which returned `result`.
pub fn publisher_ran_note(result: i64) -> (t: String)
    ensures
        t@ == publisher_ran_text(result as int),
{
    let mut t = String::new();
    t.append("publisher ran the bytecode locally: main() = ");
    push_signed_decimal(&mut t, result);
    assert(t@ =~= publisher_ran_text(result as int));
    t
}

/// The history layer's record of the commit of a release: the commit's
/// identifier is shown by its first twelve characters.
pub open spec fn committed_text(
    version: Seq<char>,
    commit_hex: Seq<char>,
    objects: nat,
    bytes: nat,
) -> Seq<char> {
    "committed release "@ + version + " as "@ + commit_hex.take(12) + " ("@ + decimal(objects)
        + " content-addressed objects, "@ + decimal(bytes) + " bytes)"@
}

/// The record of the commit of release `version` as the commit `commit_hex`,
/// in a repository of `objects` objects and `bytes` bytes.
pub fn committed_note(version: &str, commit_hex: &str, objects: u64, bytes: u64) -> (t: String)
    requires
        commit_hex@.len() >= 12,
    ensures
        t@ == committed_text(version@, commit_hex@, objects as nat, bytes as nat),
{
    let mut t = String::new();
    t.append("committed release ");
    t.append(version);
    t.append(" as ");
    push_prefix(&mut t, commit_hex, 12);
    t.append(" (");
    push_decimal(&mut t, objects);
    t.append(" content-addressed objects, ");
    push_decimal(&mut t, bytes);
    t.append(" bytes)");
    assert(t@ =~= committed_text(version@, commit_hex@, objects as nat, bytes as nat));
    t
}

/// The storage layer's record of the size of the repository's log.
pub open spec fn log_text(bytes: nat) -> Seq<char> {
    "the repository is an append-only checksummed log: "@ + decimal(bytes)
        + " bytes on disk, no byte overwritten"@
}

/// The record of a repository log of `bytes` bytes.
pub fn log_note(bytes: u64) -> (t: String)
    ensures
        t@ == log_text(bytes as nat),
{
    let mut t = String::new();
    t.append("the repository is an append-only checksummed log: ");
    push_decimal(&mut t, bytes);
    t.append(" bytes on disk, no byte overwritten");
    assert(t@ =~= log_text(bytes as nat));
    t
}

/// The wire layer's record of the push to the server.
pub open spec fn pushed_text(s: TransferStats) -> Seq<char> {
    "pushed the repository to the server: "@ + description(s)
}

/// The record of the push, which cost `s`.
pub fn pushed_note(s: &TransferStats) -> (t: String)
    requires
        totals_fit(*s),
    ensures
        t@ == pushed_text(*s),
{
    let mut t = String::new();
    t.append("pushed the repository to the server: ");
    push_description(&mut t, s);
    t
}

/// The wire layer's record of the consumer's fetch.
pub open spec fn fetched_text(s: TransferStats) -> Seq<char> {
    "consumer fetched the release from the server: "@ + description(s)
}

/// The record of the fetch, which cost `s`.
pub fn fetched_note(s: &TransferStats) -> (t: String)
    requires
        totals_fit(*s),
    ensures
        t@ == fetched_text(*s),
{
    let mut t = String::new();
    t.append("consumer fetched the release from the server: ");
    push_description(&mut t, s);
    t
}

/// The consensus layer's record: the agreed head, by the first twelve
/// characters of its identifier, and what the cluster went through.
pub open spec fn agreed_text(
    commit_hex: Seq<char>,
    ticks: nat,
    crashes: nat,
    restarts: nat,
    terms: nat,
    chaos: bool,
) -> Seq<char> {
    "3 nodes (storage on sietch) agreed on release/latest = "@ + commit_hex.take(12) + " after "@
        + decimal(ticks) + " ticks, "@ + decimal(crashes) + " crashes, "@ + decimal(restarts)
        + " restarts, "@ + decimal(terms) + " leader terms"@ + if chaos {
        ", under partitions"@
    } else {
        ""@
    }
}

/// The record of the cluster's agreement on `commit_hex` after `ticks` ticks,
/// `crashes` crashes, `restarts` restarts and `terms` terms with a leader.
pub fn agreed_note(
    commit_hex: &str,
    ticks: u64,
    crashes: u64,
    restarts: u64,
    terms: u64,
    chaos: bool,
) -> (t: String)
    requires
        commit_hex@.len() >= 12,
    ensures
        t@ == agreed_text(
            commit_hex@,
            ticks as nat,
            crashes as nat,
            restarts as nat,
            terms as nat,
            chaos,
        ),
{
    let mut t = String::new();
    t.append("3 nodes (storage on sietch) agreed on release/latest = ");
    push_prefix(&mut t, commit_hex, 12);
    t.append(" after ");
    push_decimal(&mut t, ticks);
    t.append(" ticks, ");
    push_decimal(&mut t, crashes);
    t.append(" crashes, ");
    push_decimal(&mut t, restarts);
    t.append(" restarts, ");
    push_decimal(&mut t, terms);
    t.append(" leader terms");
    if chaos {
        t.append(", under partitions");
    } else {
        t.append("");
    }
    assert(t@ =~= agreed_text(
        commit_hex@,
        ticks as nat,
        crashes as nat,
        restarts as nat,
        terms as nat,
        chaos,
    ));
    t
}

/// The history layer's record of the consumer's verification: the artifact's
/// hash, by its first sixteen characters.
pub open spec fn verified_text(sha: Seq<char>) -> Seq<char> {
    "consumer verified every object by hash; artifact sha256 "@ + sha.take(16)
        + "... matches the manifest, the SQL registry and the publisher"@
}

/// The record of the consumer's verification of the artifact with hash `sha`.
pub fn verified_note(sha: &str) -> (t: String)
    requires
        sha@.len() >= 16,
    ensures
        t@ == verified_text(sha@),
{
    let mut t = String::new();
    t.append("consumer verified every object by hash; artifact sha256 ");
    push_prefix(&mut t, sha, 16);
    t.append("... matches the manifest, the SQL registry and the publisher");
    assert(t@ =~= verified_text(sha@));
    t
}

/// The consumer's record of its run.
pub open spec fn consumer_ran_text(result: int) -> Seq<char> {
    "consumer ran the fetched bytecode: main() = "@ + signed_decimal(result)
        + ", identical to the publisher's"@
}

/// The record of the consumer's run, which returned `result`.
pub fn consumer_ran_note(result: i64) -> (t: String)
    ensures
        t@ == consumer_ran_text(result as int),
{
    let mut t = String::new();
    t.append("consumer ran the fetched bytecode: main() = ");
    push_signed_decimal(&mut t, result);
    t.append(", identical to the publisher's");
    assert(t@ =~= consumer_ran_text(result as int));
    t
}

/// The statement that creates the registry's table of releases.
pub const CREATE_RELEASES: &'static str = "CREATE TABLE releases (version TEXT PRIMARY KEY, commit_id TEXT NOT NULL, artifact_bytes INTEGER NOT NULL, artifact_sha TEXT NOT NULL)";

/// The statement that indexes a release in the registry.
pub open spec fn insert_text(
    version: Seq<char>,
    commit_hex: Seq<char>,
    artifact_bytes: nat,
    sha: Seq<char>,
) -> Seq<char> {
    "INSERT INTO releases VALUES ('"@ + version + "', '"@ + commit_hex + "', "@ + decimal(
        artifact_bytes,
    ) + ", '"@ + sha + "')"@
}

/// The statement that indexes release `version`: its commit, its artifact's
/// length and its artifact's hash.
pub fn insert_statement(version: &str, commit_hex: &str, artifact_bytes: usize, sha: &str) -> (s:
    String)
    ensures
        s@ == insert_text(version@, commit_hex@, artifact_bytes as nat, sha@),
{
    let mut s = String::new();
    s.append("INSERT INTO releases VALUES ('");
    s.append(version);
    s.append("', '");
    s.append(commit_hex);
    s.append("', ");
    push_decimal(&mut s, artifact_bytes as u64);
    s.append(", '");
    s.append(sha);
    s.append("')");
    assert(s@ =~= insert_text(version@, commit_hex@, artifact_bytes as nat, sha@));
    s
}

/// Sixty-four zeros: the hash that a lying registry claims.
pub open spec fn forged_sha() -> Seq<char> {
    Seq::new(64, |i: int| '0')
}

/// The statement that makes the registry claim the forged hash for release
/// `version`.
pub open spec fn forge_text(version: Seq<char>) -> Seq<char> {
    "UPDATE releases SET artifact_sha = '"@ + forged_sha() + "' WHERE version = '"@ + version
        + "'"@
}

/// The statement that makes the registry lie about release `version`.
pub fn forge_statement(version: &str) -> (s: String)
    ensures
        s@ == forge_text(version@),
{
    let mut s = String::new();
    s.append("UPDATE releases SET artifact_sha = '");
    let ghost start = s@;
    let mut i: usize = 0;
    while i < 64
        invariant
            i <= 64,
            s@ == start + Seq::new(i as nat, |k: int| '0'),
        decreases 64 - i,
    {
        s.push('0');
        i = i + 1;
        assert(s@ =~= start + Seq::new(i as nat, |k: int| '0'));
    }
    s.append("' WHERE version = '");
    s.append(version);
    s.append("'");
    assert(s@ =~= forge_text(version@));
    s
}

/// The statement that reads release `version` back from the registry.
pub open spec fn select_text(version: Seq<char>) -> Seq<char> {
    "SELECT version, commit_id, artifact_bytes, artifact_sha FROM releases WHERE version = '"@
        + version + "'"@
}

/// The statement that reads release `version` back.
pub fn select_statement(version: &str) -> (s: String)
    ensures
        s@ == select_text(version@),
{
    let mut s = String::new();
    s.append("SELECT version, commit_id, artifact_bytes, artifact_sha FROM releases WHERE version = '");
    s.append(version);
    s.append("'");
    assert(s@ =~= select_text(version@));
    s
}

/// The message of the commit of release `version`.
pub open spec fn release_message_text(version: Seq<char>) -> Seq<char> {
    "release "@ + version
}

/// The message of the commit of release `version`.
pub fn release_message(version: &str) -> (m: String)
    ensures
        m@ == release_message_text(version@),
{
    let mut m = String::new();
    m.append("release ");
    m.append(version);
    assert(m@ =~= release_message_text(version@));
    m
}

/// The insert statement carries each value whole, whatever its length: the
/// version, the commit identifier, the artifact length and the hash each
/// stand in it as they are.
pub proof fn insert_statement_holds_its_values_whole(
    version: Seq<char>,
    commit_hex: Seq<char>,
    artifact_bytes: nat,
    sha: Seq<char>,
)
    ensures
        occurs_in(version, insert_text(version, commit_hex, artifact_bytes, sha)),
        occurs_in(commit_hex, insert_text(version, commit_hex, artifact_bytes, sha)),
        occurs_in(decimal(artifact_bytes), insert_text(version, commit_hex, artifact_bytes, sha)),
        occurs_in(sha, insert_text(version, commit_hex, artifact_bytes, sha)),
{
    let t = insert_text(version, commit_hex, artifact_bytes, sha);
    let a = "INSERT INTO releases VALUES ('"@;
    let i0 = a.len() as int;
    assert(t.subrange(i0, i0 + version.len()) =~= version);
    let i1 = (a + version + "', '"@).len() as int;
    assert(t.subrange(i1, i1 + commit_hex.len()) =~= commit_hex);
    let i2 = (a + version + "', '"@ + commit_hex + "', "@).len() as int;
    assert(t.subrange(i2, i2 + decimal(artifact_bytes).len()) =~= decimal(artifact_bytes));
    let i3 = (a + version + "', '"@ + commit_hex + "', "@ + decimal(artifact_bytes) + ", '"@).len() as int;
    assert(t.subrange(i3, i3 + sha.len()) =~= sha);
}

/// Two insert statements for the same version, length and hash are the same
/// only for the same commit identifier: the statement determines the commit.
pub proof fn insert_statement_determines_the_commit(
    version: Seq<char>,
    c1: Seq<char>,
    c2: Seq<char>,
    artifact_bytes: nat,
    sha: Seq<char>,
)
    requires
        insert_text(version, c1, artifact_bytes, sha) == insert_text(
            version,
            c2,
            artifact_bytes,
            sha,
        ),
    ensures
        c1 == c2,
{
    let a = "INSERT INTO releases VALUES ('"@ + version + "', '"@;
    let b = "', "@ + decimal(artifact_bytes) + ", '"@ + sha + "')"@;
    assert(insert_text(version, c1, artifact_bytes, sha) =~= a + c1 + b);
    assert(insert_text(version, c2, artifact_bytes, sha) =~= a + c2 + b);
    let t = a + c1 + b;
    assert(c1.len() == c2.len());
    assert(t.subrange(a.len() as int, (a.len() + c1.len()) as int) =~= c1);
    assert((a + c2 + b).subrange(a.len() as int, (a.len() + c2.len()) as int) =~= c2);
}

} // verus!
