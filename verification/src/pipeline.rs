//! The checks that make every hop agree with the one before it, and the
//! records that the publisher writes for the consumer to check against.

use vstd::prelude::*;

use crate::report::forged_sha;
use crate::text::{
    decimal, hex_text, occurs_in, push_decimal, push_hex, same_bytes, text_contains,
};

verus! {

/// Anything that goes wrong in any layer, with its message.
#[derive(Debug)]
pub struct PipelineError(pub String);

/// Deliberate sabotage, so that each verification layer can be shown to be
/// load-bearing: a run with sabotage must fail rather than execute anything.
#[derive(Debug, Clone, Copy, PartialEq, Eq, Structural)]
pub enum Tamper {
    /// No sabotage.
    Nothing,
    /// Flip one bit of the artifact's stored blob on the server (after the push).
    ServerBlob,
    /// Make the SQL registry claim a different artifact hash.
    RegistryHash,
}

/// The error with the message `msg`.
pub fn fail<T>(msg: String) -> (r: Result<T, PipelineError>)
    ensures
        r matches Err(e) && e.0@ == msg@,
{
    Err(PipelineError(msg))
}

/// The error whose message is the text `msg`.
fn error(msg: &str) -> (e: PipelineError)
    ensures
        e.0@ == msg@,
{
    PipelineError(msg.to_owned())
}

/// Lower-case hexadecimal notation of `bytes`, two digits per byte.
pub fn hex(bytes: &[u8]) -> (s: String)
    ensures
        s@ == hex_text(bytes@),
{
    let mut s = String::new();
    push_hex(&mut s, bytes);
    s
}

/// Checks that the compiled module defines a `main` without parameters;
/// `main_params` is the number of parameters of its `main`, if it has one.
pub fn check_main_signature(main_params: Option<usize>) -> (r: Result<(), PipelineError>)
    ensures
        r is Ok <==> main_params == Some(0usize),
        r matches Err(e) ==> e.0@ == "the source must define a zero-argument `fn main() -> i64`"@,
{
    if let Some(n) = main_params {
        if n == 0 {
            return Ok(());
        }
    }
    Err(error("the source must define a zero-argument `fn main() -> i64`"))
}

/// Checks that reading the release back from the registry gave exactly one row.
pub fn check_registry_rows(rows: usize) -> (r: Result<(), PipelineError>)
    ensures
        r is Ok <==> rows == 1,
        r matches Err(e) ==> e.0@
            == "the registry did not return exactly the release just inserted"@,
{
    if rows != 1 {
        return Err(error("the registry did not return exactly the release just inserted"));
    }
    Ok(())
}

/// The row read back from the registry is the release just inserted: the
/// same version, commit and artifact length. (The hash column is left to the
/// consumer's check, which compares it with the publisher's hash.)
pub open spec fn row_is_release(
    row_version: Option<Seq<char>>,
    row_commit: Option<Seq<char>>,
    row_bytes: Option<i64>,
    version: Seq<char>,
    commit_hex: Seq<char>,
    artifact_bytes: nat,
) -> bool {
    &&& row_version == Some(version)
    &&& row_commit == Some(commit_hex)
    &&& row_bytes matches Some(b) && b == artifact_bytes
}

fn text_is(found: &Option<String>, expected: &str) -> (r: bool)
    ensures
        r == (found matches Some(t) && t@ == expected@),
{
    match found {
        Some(t) => crate::text::same_text(t.as_str(), expected),
        None => false,
    }
}

/// Checks that the row read back from the registry holds what was inserted;
/// each column is given as its text or number, or `None` when the column
/// holds a value of another kind.
pub fn check_registry_row(
    row_version: &Option<String>,
    row_commit: &Option<String>,
    row_bytes: Option<i64>,
    version: &str,
    commit_hex: &str,
    artifact_bytes: usize,
) -> (r: Result<(), PipelineError>)
    ensures
        r is Ok <==> row_is_release(
            match row_version {
                Some(t) => Some(t@),
                None => None,
            },
            match row_commit {
                Some(t) => Some(t@),
                None => None,
            },
            row_bytes,
            version@,
            commit_hex@,
            artifact_bytes as nat,
        ),
        r matches Err(e) ==> e.0@
            == "the registry did not return exactly the release just inserted"@,
{
    let bytes_ok: bool = match row_bytes {
        Some(b) => b >= 0 && (b as u64) == (artifact_bytes as u64),
        None => false,
    };
    if !text_is(row_version, version) || !text_is(row_commit, commit_hex) || !bytes_ok {
        return Err(error("the registry did not return exactly the release just inserted"));
    }
    Ok(())
}

/// Checks that the server executed every request it answered exactly once.
pub fn check_exactly_once(executions: u64, calls: u64) -> (r: Result<(), PipelineError>)
    ensures
        r is Ok <==> executions == calls,
        r matches Err(e) ==> e.0@ == "a request executed more than once on the server"@,
{
    if executions != calls {
        return Err(error("a request executed more than once on the server"));
    }
    Ok(())
}

/// Whether `found` names the commit `commit`.
fn names_commit(found: &Option<Vec<u8>>, commit: &[u8]) -> (r: bool)
    ensures
        r == (found matches Some(id) && id@ == commit@),
{
    match found {
        Some(id) => same_bytes(id.as_slice(), commit),
        None => false,
    }
}

/// Checks that the server's `main` is the published commit; `server_head` is
/// the commit the server's `main` names, if any.
pub fn check_server_head(server_head: &Option<Vec<u8>>, commit: &[u8]) -> (r: Result<
    (),
    PipelineError,
>)
    ensures
        r is Ok <==> (server_head matches Some(id) && id@ == commit@),
        r matches Err(e) ==> e.0@ == "the server's main is not the published commit"@,
{
    if !names_commit(server_head, commit) {
        return Err(error("the server's main is not the published commit"));
    }
    Ok(())
}

/// Every consensus node's replicated state holds `expected` as the head.
pub open spec fn heads_agree(heads: Seq<Option<Vec<u8>>>, expected: Seq<u8>) -> bool {
    forall|i: int| 0 <= i < heads.len() ==> (#[trigger] heads[i] matches Some(h) && h@ == expected)
}

/// Checks that every consensus node agrees on the published head; `heads`
/// holds, for each node, the head its replicated state records, if any.
pub fn check_heads_agree(heads: &Vec<Option<Vec<u8>>>, expected: &[u8]) -> (r: Result<
    (),
    PipelineError,
>)
    ensures
        r is Ok <==> heads_agree(heads@, expected@),
        r matches Err(e) ==> e.0@ == "the consensus nodes do not all agree on the published head"@,
{
    let mut i: usize = 0;
    while i < heads.len()
        invariant
            i <= heads@.len(),
            forall|j: int|
                0 <= j < i ==> (#[trigger] heads@[j] matches Some(h) && h@ == expected@),
        decreases heads@.len() - i,
    {
        if !names_commit(&heads[i], expected) {
            return Err(error("the consensus nodes do not all agree on the published head"));
        }
        i = i + 1;
    }
    Ok(())
}

/// Checks that the consumer's remote-tracking `main` is the agreed head and
/// that the consumer holds that head's complete history.
pub fn check_consumer_head(remote_head: &Option<Vec<u8>>, agreed: &[u8], complete: bool) -> (r:
    Result<(), PipelineError>)
    ensures
        r is Ok <==> (remote_head matches Some(id) && id@ == agreed@) && complete,
        r matches Err(e) ==> e.0@
            == "the consumer does not hold the agreed head's complete history"@,
{
    if !names_commit(remote_head, agreed) || !complete {
        return Err(error("the consumer does not hold the agreed head's complete history"));
    }
    Ok(())
}

/// The manifest line that names the artifact's hash.
pub open spec fn sha_line(sha: Seq<char>) -> Seq<char> {
    "artifact_sha256="@ + sha
}

/// The manifest committed beside the artifact: its version, its SHA-256 and
/// its length, one `key=value` line each.
pub open spec fn manifest_text(version: Seq<char>, sha: Seq<char>, artifact_bytes: nat) -> Seq<
    char,
> {
    "version="@ + version + "\n"@ + sha_line(sha) + "\n"@ + "artifact_bytes="@ + decimal(
        artifact_bytes,
    ) + "\n"@
}

/// The manifest of a release.
pub fn manifest(version: &str, sha: &str, artifact_bytes: usize) -> (m: String)
    ensures
        m@ == manifest_text(version@, sha@, artifact_bytes as nat),
{
    let mut m = String::new();
    m.append("version=");
    m.append(version);
    m.append("\n");
    m.append("artifact_sha256=");
    m.append(sha);
    m.append("\n");
    m.append("artifact_bytes=");
    push_decimal(&mut m, artifact_bytes as u64);
    m.append("\n");
    assert(m@ =~= manifest_text(version@, sha@, artifact_bytes as nat));
    m
}

/// What the consumer fetched is what the publisher published: the same
/// artifact bytes, the same hash as the publisher's, as the registry's and as
/// the manifest's.
pub open spec fn fetched_matches(
    fetched: Seq<u8>,
    published: Seq<u8>,
    fetched_sha: Seq<char>,
    published_sha: Seq<char>,
    registry_sha: Seq<char>,
    fetched_manifest: Seq<char>,
) -> bool {
    &&& fetched == published
    &&& fetched_sha == published_sha
    &&& fetched_sha == registry_sha
    &&& occurs_in(sha_line(fetched_sha), fetched_manifest)
}

/// Checks the fetched artifact against the publisher's artifact and hash, the
/// registry's hash and the fetched manifest.
pub fn check_fetched(
    fetched: &[u8],
    published: &[u8],
    fetched_sha: &str,
    published_sha: &str,
    registry_sha: &str,
    fetched_manifest: &str,
) -> (r: Result<(), PipelineError>)
    ensures
        r is Ok <==> fetched_matches(
            fetched@,
            published@,
            fetched_sha@,
            published_sha@,
            registry_sha@,
            fetched_manifest@,
        ),
        r matches Err(e) ==> e.0@ == "the fetched artifact does not match what was published"@,
{
    let mut line = String::new();
    line.append("artifact_sha256=");
    line.append(fetched_sha);
    assert(line@ =~= sha_line(fetched_sha@));
    let ok: bool = same_bytes(fetched, published) && crate::text::same_text(
        fetched_sha,
        published_sha,
    ) && crate::text::same_text(fetched_sha, registry_sha) && text_contains(
        fetched_manifest,
        line.as_str(),
    );
    if !ok {
        return Err(error("the fetched artifact does not match what was published"));
    }
    Ok(())
}

/// Checks the runner's capability: it must not allow writing, and deriving a
/// wider one from it must be refused.
pub fn check_attenuation(can_write: bool, widened: bool) -> (r: Result<(), PipelineError>)
    ensures
        r is Ok <==> !can_write && !widened,
        r matches Err(e) ==> e.0@ == (if can_write {
            "the runner's capability was not attenuated: it can write"@
        } else {
            "a capability was widened by derivation"@
        }),
{
    if can_write {
        return Err(error("the runner's capability was not attenuated: it can write"));
    }
    if widened {
        return Err(error("a capability was widened by derivation"));
    }
    Ok(())
}

/// Checks that revoking the region made the runner's capability stop working.
pub fn check_revoked(revoked: bool) -> (r: Result<(), PipelineError>)
    ensures
        r is Ok <==> revoked,
        r matches Err(e) ==> e.0@ == "the runner's capability still works after revocation"@,
{
    if !revoked {
        return Err(error("the runner's capability still works after revocation"));
    }
    Ok(())
}

/// Checks that the consumer computed what the publisher computed.
pub fn check_same_result(consumer: i64, publisher: i64) -> (r: Result<(), PipelineError>)
    ensures
        r is Ok <==> consumer == publisher,
        r matches Err(e) ==> e.0@ == "consumer computed "@ + crate::text::signed_decimal(
            consumer as int,
        ) + ", publisher computed "@ + crate::text::signed_decimal(publisher as int),
{
    if consumer != publisher {
        let mut msg = String::new();
        msg.append("consumer computed ");
        crate::text::push_signed_decimal(&mut msg, consumer);
        msg.append(", publisher computed ");
        crate::text::push_signed_decimal(&mut msg, publisher);
        return Err(PipelineError(msg));
    }
    Ok(())
}

/// The key under which the store holds the object with the identifier `id`:
/// the byte `o`, then the identifier.
pub fn object_key(id: &[u8]) -> (key: Vec<u8>)
    ensures
        key@ == seq![111u8] + id@,
{
    let mut key: Vec<u8> = Vec::new();
    key.push(111u8);
    let mut i: usize = 0;
    while i < id.len()
        invariant
            i <= id@.len(),
            key@ == seq![111u8] + id@.take(i as int),
        decreases id@.len() - i,
    {
        key.push(id[i]);
        i = i + 1;
        assert(key@ =~= seq![111u8] + id@.take(i as int));
    }
    assert(id@.take(id@.len() as int) =~= id@);
    key
}

/// `blob` with the lowest bit of its middle byte flipped.
pub open spec fn flipped(blob: Seq<u8>) -> Seq<u8> {
    blob.update(blob.len() as int / 2, blob[blob.len() as int / 2] ^ 1u8)
}

/// Flips the lowest bit of the byte in the middle of `blob`.
pub fn flip_middle_bit(blob: &mut Vec<u8>)
    requires
        old(blob)@.len() > 0,
    ensures
        final(blob)@ == flipped(old(blob)@),
        final(blob)@ != old(blob)@,
{
    let mid: usize = blob.len() / 2;
    let b: u8 = blob[mid];
    assert(b ^ 1u8 != b) by (bit_vector);
    blob.set(mid, b ^ 1u8);
    assert(blob@[mid as int] != old(blob)@[mid as int]);
}

/// A manifest names the hash it was written with, in the line that the
/// consumer looks for.
pub proof fn manifest_names_its_hash(version: Seq<char>, sha: Seq<char>, artifact_bytes: nat)
    ensures
        occurs_in(sha_line(sha), manifest_text(version, sha, artifact_bytes)),
{
    let m = manifest_text(version, sha, artifact_bytes);
    let i: int = ("version="@ + version + "\n"@).len() as int;
    assert(m.subrange(i, i + sha_line(sha).len()) =~= sha_line(sha));
}

/// A release that reaches the consumer unaltered, with the publisher's hash in
/// the registry and the publisher's manifest, passes the consumer's check.
pub proof fn untampered_release_is_accepted(
    artifact: Seq<u8>,
    version: Seq<char>,
    sha: Seq<char>,
    artifact_bytes: nat,
)
    ensures
        fetched_matches(artifact, artifact, sha, sha, sha, manifest_text(version, sha, artifact_bytes)),
{
    manifest_names_its_hash(version, sha, artifact_bytes);
}

/// When the registry claims a hash other than the publisher's, no fetched
/// artifact passes the consumer's check, however intact the repository is.
pub proof fn lying_registry_is_caught(
    fetched: Seq<u8>,
    published: Seq<u8>,
    fetched_sha: Seq<char>,
    published_sha: Seq<char>,
    registry_sha: Seq<char>,
    fetched_manifest: Seq<char>,
)
    requires
        registry_sha != published_sha,
    ensures
        !fetched_matches(fetched, published, fetched_sha, published_sha, registry_sha, fetched_manifest),
{
}

/// An artifact whose bytes differ from the published ones never passes the
/// consumer's check; in particular one with its middle bit flipped.
pub proof fn altered_artifact_is_caught(
    fetched: Seq<u8>,
    published: Seq<u8>,
    fetched_sha: Seq<char>,
    published_sha: Seq<char>,
    registry_sha: Seq<char>,
    fetched_manifest: Seq<char>,
)
    requires
        fetched != published,
    ensures
        !fetched_matches(fetched, published, fetched_sha, published_sha, registry_sha, fetched_manifest),
{
}

/// A sabotaged run never gets past the consumer's check, whatever hash and
/// manifest the consumer fetched. Flipping a bit of the blob the server
/// stores hands the consumer, if the store lets the blob through at all,
/// artifact bytes other than the published ones (which bytes depends on the
/// object encoding, outside this library); forging the registry makes it claim
/// sixty-four zeros, which differ from the published hash unless that hash is
/// itself sixty-four zeros.
pub proof fn sabotage_is_caught_by_the_consumers_check(
    tamper: Tamper,
    fetched: Seq<u8>,
    published: Seq<u8>,
    fetched_sha: Seq<char>,
    published_sha: Seq<char>,
    registry_sha: Seq<char>,
    fetched_manifest: Seq<char>,
)
    requires
        tamper != Tamper::Nothing,
        tamper == Tamper::ServerBlob ==> fetched != published,
        tamper == Tamper::RegistryHash ==> registry_sha == forged_sha() && published_sha
            != forged_sha(),
    ensures
        !fetched_matches(fetched, published, fetched_sha, published_sha, registry_sha, fetched_manifest),
{
    if tamper == Tamper::ServerBlob {
        altered_artifact_is_caught(
            fetched,
            published,
            fetched_sha,
            published_sha,
            registry_sha,
            fetched_manifest,
        );
    } else {
        lying_registry_is_caught(
            fetched,
            published,
            fetched_sha,
            published_sha,
            registry_sha,
            fetched_manifest,
        );
    }
}

/// A single node agrees exactly when it is up and holds the expected head.
pub proof fn a_single_node_agrees_exactly_when_it_holds_the_head(
    head: Option<Vec<u8>>,
    expected: Seq<u8>,
)
    ensures
        heads_agree(seq![head], expected) <==> (head matches Some(h) && h@ == expected),
{
    assert(seq![head][0] == head);
}

/// Agreement splits over the nodes: a cluster agrees exactly when each part of
/// it agrees, so one node anywhere, the first included, that does not hold the
/// expected head makes the whole cluster disagree.
pub proof fn agreement_splits_over_the_nodes(
    a: Seq<Option<Vec<u8>>>,
    b: Seq<Option<Vec<u8>>>,
    expected: Seq<u8>,
)
    ensures
        heads_agree(a + b, expected) <==> heads_agree(a, expected) && heads_agree(b, expected),
{
    let ab = a + b;
    if heads_agree(ab, expected) {
        assert forall|i: int| 0 <= i < a.len() implies (#[trigger] a[i] matches Some(h) && h@
            == expected) by {
            assert(ab[i] == a[i]);
        }
        assert forall|i: int| 0 <= i < b.len() implies (#[trigger] b[i] matches Some(h) && h@
            == expected) by {
            assert(ab[a.len() + i] == b[i]);
        }
    }
    if heads_agree(a, expected) && heads_agree(b, expected) {
        assert forall|i: int| 0 <= i < ab.len() implies (#[trigger] ab[i] matches Some(h) && h@
            == expected) by {
            if i < a.len() {
                assert(ab[i] == a[i]);
            } else {
                assert(ab[i] == b[i - a.len()]);
            }
        }
    }
}

} // verus!
