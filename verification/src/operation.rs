//! The operation as a whole: the order of its steps, what each records in the
//! trace, and which checks must pass before the next step. The layers do their
//! work outside; each step takes what they observed.

use vstd::prelude::*;

use crate::pipeline::{
    check_attenuation, check_consumer_head, check_exactly_once, check_fetched,
    check_heads_agree, check_registry_row, check_registry_rows, check_revoked,
    check_same_result, check_server_head, fetched_matches, heads_agree, row_is_release,
    PipelineError,
};
use crate::report::{
    agreed_note, agreed_text, committed_note, committed_text, compiled_note, compiled_text,
    consumer_ran_note, consumer_ran_text, fetched_note, fetched_text, log_note, log_text,
    publisher_ran_note, publisher_ran_text, pushed_note, pushed_text, totals_fit,
    verified_note, verified_text, TransferStats,
};
use crate::trace::{first_appearances, note_adds_a_new_layer, step_layers, Step, Trace};

verus! {

/// The layers of the operation, in the order in which they first take part.
pub open spec fn layer_order() -> Seq<Seq<char>> {
    seq![
        "chakobsa"@,
        "mentat"@,
        "ghola"@,
        "sietch"@,
        "choam"@,
        "distrans"@,
        "landsraad"@,
        "muaddib"@,
    ]
}

/// The layers of the operation name no layer twice.
pub proof fn layer_order_is_distinct()
    ensures
        layer_order().no_duplicates(),
{
    reveal_strlit("chakobsa");
    reveal_strlit("mentat");
    reveal_strlit("ghola");
    reveal_strlit("sietch");
    reveal_strlit("choam");
    reveal_strlit("distrans");
    reveal_strlit("landsraad");
    reveal_strlit("muaddib");
    let o = layer_order();
    assert(o[0].len() == 8 && o[0][0] == 'c');
    assert(o[1].len() == 6 && o[1][0] == 'm');
    assert(o[2].len() == 5 && o[2][0] == 'g');
    assert(o[3].len() == 6 && o[3][0] == 's');
    assert(o[4].len() == 5 && o[4][0] == 'c');
    assert(o[5].len() == 8 && o[5][0] == 'd');
    assert(o[6].len() == 9 && o[6][0] == 'l');
    assert(o[7].len() == 7 && o[7][0] == 'm');
    assert forall|i: int, j: int| 0 <= i < 8 && 0 <= j < 8 && i != j implies o[i] != o[j] by {
        if o[i] == o[j] {
            assert(o[i].len() == o[j].len());
            assert(o[i][0] == o[j][0]);
        }
    }
}

/// Noting a step by the `j`-th layer of the order, when the layers of the
/// trace are the first `k` of the order, leaves them so when that layer took
/// part already, and adds it as the next one when it is the `k`-th.
proof fn layers_after_note(steps: Seq<Step>, step: Step, j: int, k: int)
    requires
        0 <= j < 8,
        j <= k <= 8,
        first_appearances(step_layers(steps)) == layer_order().take(k),
        step.layer@ == layer_order()[j],
    ensures
        first_appearances(step_layers(steps.push(step))) == layer_order().take(
            if j < k {
                k
            } else {
                k + 1
            },
        ),
{
    layer_order_is_distinct();
    note_adds_a_new_layer(steps, step);
    let o = layer_order();
    if j < k {
        assert(o.take(k)[j] == o[j]);
    } else {
        assert forall|i: int| 0 <= i < o.take(k).len() implies o.take(k)[i] != step.layer@ by {
            assert(o.take(k)[i] == o[i]);
        }
        assert(o.take(k).push(o[k]) =~= o.take(k + 1));
    }
}

/// How far the operation has come: each stage names the last step done.
#[derive(Debug, Clone, Copy, PartialEq, Eq, Structural)]
pub enum Stage {
    Start,
    /// The source was compiled to an artifact.
    Compiled,
    /// The publisher ran the artifact: the reference result.
    RanLocally,
    /// Source, artifact and manifest were committed to the repository.
    Committed,
    /// The release was indexed in the registry and read back intact.
    Indexed,
    /// The repository was pushed to the server, which holds the commit.
    Pushed,
    /// The consensus nodes agreed on the release head.
    Agreed,
    /// The consumer fetched the release and it matched what was published.
    Fetched,
    /// The runner's capability was shown attenuated.
    Attenuated,
    /// The consumer ran the fetched artifact, with the publisher's result.
    RanRemotely,
    /// The runner's capability was revoked and stopped working.
    Revoked,
}

/// How many layers of the order have taken part once `stage` is reached.
pub open spec fn layers_at(stage: Stage) -> int {
    match stage {
        Stage::Start => 0,
        Stage::Compiled => 1,
        Stage::RanLocally => 2,
        Stage::Committed => 4,
        Stage::Indexed => 5,
        Stage::Pushed => 6,
        Stage::Agreed => 7,
        Stage::Fetched => 7,
        Stage::Attenuated => 8,
        Stage::RanRemotely => 8,
        Stage::Revoked => 8,
    }
}

/// The consumer has fetched the release and found it intact.
pub open spec fn past_fetch(stage: Stage) -> bool {
    ||| stage == Stage::Fetched
    ||| stage == Stage::Attenuated
    ||| stage == Stage::RanRemotely
    ||| stage == Stage::Revoked
}

/// `after` is `before` with one more step, by `layer`, recording `what`.
pub open spec fn noted(before: Seq<Step>, after: Seq<Step>, layer: Seq<char>, what: Seq<char>) -> bool {
    &&& after.len() == before.len() + 1
    &&& after.drop_last() == before
    &&& after.last().layer@ == layer
    &&& after.last().what@ == what
}

/// The operation: its trace, its stage, the artifact that was published, and
/// the fetched artifact once the consumer's check has cleared it.
#[derive(Debug)]
pub struct Operation {
    pub trace: Trace,
    pub stage: Stage,
    pub published: Vec<u8>,
    pub cleared: Option<Vec<u8>>,
    /// What `main` returned on the publisher's side.
    pub publisher_result: i64,
}

impl Operation {
    /// The trace names the layers that took part so far, in the order of
    /// `layer_order`; the fetched artifact is held exactly once the consumer's
    /// check passed, and it is the published artifact.
    pub open spec fn wf(&self) -> bool {
        &&& first_appearances(step_layers(self.trace.steps@)) == layer_order().take(
            layers_at(self.stage),
        )
        &&& (past_fetch(self.stage) <==> self.cleared is Some)
        &&& (self.cleared matches Some(a) ==> a@ == self.published@)
    }

    /// An operation that has not started.
    pub fn new() -> (op: Operation)
        ensures
            op.wf(),
            op.stage == Stage::Start,
            op.trace.steps@ == Seq::<Step>::empty(),
            op.cleared is None,
    {
        let op = Operation {
            trace: Trace::default(),
            stage: Stage::Start,
            published: Vec::new(),
            cleared: None,
            publisher_result: 0,
        };
        assert(layer_order().take(0) =~= Seq::<Seq<char>>::empty());
        op
    }

    /// The source (of `source_bytes` bytes) was compiled to `artifact`.
    pub fn compiled(&mut self, source_bytes: usize, artifact: &[u8])
        requires
            old(self).wf(),
            old(self).stage == Stage::Start,
        ensures
            final(self).wf(),
            final(self).stage == Stage::Compiled,
            final(self).published@ == artifact@,
            final(self).cleared is None,
            noted(
                old(self).trace.steps@,
                final(self).trace.steps@,
                "chakobsa"@,
                compiled_text(source_bytes as nat, artifact@.len()),
            ),
    {
        let what: String = compiled_note(source_bytes, artifact.len());
        let ghost before = self.trace.steps@;
        self.trace.note("chakobsa", what);
        proof {
            layers_after_note(before, self.trace.steps@.last(), 0, 0);
            assert(self.trace.steps@.drop_last() =~= before);
        }
        self.published = vstd::slice::slice_to_vec(artifact);
        self.stage = Stage::Compiled;
    }

    /// The publisher ran the artifact, and `main` returned `result`.
    pub fn ran_locally(&mut self, result: i64)
        requires
            old(self).wf(),
            old(self).stage == Stage::Compiled,
        ensures
            final(self).wf(),
            final(self).stage == Stage::RanLocally,
            final(self).published == old(self).published,
            final(self).cleared is None,
            final(self).publisher_result == result,
            noted(
                old(self).trace.steps@,
                final(self).trace.steps@,
                "mentat"@,
                publisher_ran_text(result as int),
            ),
    {
        let what: String = publisher_ran_note(result);
        let ghost before = self.trace.steps@;
        self.trace.note("mentat", what);
        proof {
            layers_after_note(before, self.trace.steps@.last(), 1, 1);
            assert(self.trace.steps@.drop_last() =~= before);
        }
        self.publisher_result = result;
        self.stage = Stage::RanLocally;
    }

    /// Release `version` was committed as `commit_hex`, in a repository of
    /// `objects` objects and `bytes` bytes, whose log takes `log_bytes` bytes.
    pub fn committed(
        &mut self,
        version: &str,
        commit_hex: &str,
        objects: u64,
        bytes: u64,
        log_bytes: u64,
    )
        requires
            old(self).wf(),
            old(self).stage == Stage::RanLocally,
            commit_hex@.len() >= 12,
        ensures
            final(self).wf(),
            final(self).stage == Stage::Committed,
            final(self).published == old(self).published,
            final(self).cleared is None,
            final(self).publisher_result == old(self).publisher_result,
            noted(
                old(self).trace.steps@,
                final(self).trace.steps@.drop_last(),
                "ghola"@,
                committed_text(version@, commit_hex@, objects as nat, bytes as nat),
            ),
            noted(
                final(self).trace.steps@.drop_last(),
                final(self).trace.steps@,
                "sietch"@,
                log_text(log_bytes as nat),
            ),
    {
        let what: String = committed_note(version, commit_hex, objects, bytes);
        let ghost before = self.trace.steps@;
        self.trace.note("ghola", what);
        let ghost mid = self.trace.steps@;
        proof {
            layers_after_note(before, mid.last(), 2, 2);
            assert(mid.drop_last() =~= before);
        }
        let what: String = log_note(log_bytes);
        self.trace.note("sietch", what);
        proof {
            layers_after_note(mid, self.trace.steps@.last(), 3, 3);
            assert(self.trace.steps@.drop_last() =~= mid);
        }
        self.stage = Stage::Committed;
    }

    /// The registry returned `rows` rows when the release was read back; the
    /// first holds the version `row_version`, the commit `row_commit` and the
    /// artifact length `row_bytes` (each `None` when of another kind), and
    /// `rows_text` shows the rows. The release is indexed when exactly one row
    /// came back and it is the release just inserted.
    pub fn indexed(
        &mut self,
        rows: usize,
        row_version: &Option<String>,
        row_commit: &Option<String>,
        row_bytes: Option<i64>,
        version: &str,
        commit_hex: &str,
        rows_text: &str,
    ) -> (r: Result<(), PipelineError>)
        requires
            old(self).wf(),
            old(self).stage == Stage::Committed,
        ensures
            final(self).wf(),
            r is Ok <==> rows == 1 && row_is_release(
                match row_version {
                    Some(t) => Some(t@),
                    None => None,
                },
                match row_commit {
                    Some(t) => Some(t@),
                    None => None,
                },
                row_bytes,
                version@,
                commit_hex@,
                old(self).published@.len(),
            ),
            r matches Err(e) ==> e.0@
                == "the registry did not return exactly the release just inserted"@ && *final(self) == *old(self),
            r is Ok ==> final(self).stage == Stage::Indexed && final(self).published == old(self).published && final(self).cleared is None && final(self).publisher_result == old(self).publisher_result && noted(
                old(self).trace.steps@,
                final(self).trace.steps@,
                "choam"@,
                indexed_text(rows_text@),
            ),
    {
        if let Err(e) = check_registry_rows(rows) {
            return Err(e);
        }
        if let Err(e) = check_registry_row(
            row_version,
            row_commit,
            row_bytes,
            version,
            commit_hex,
            self.published.len(),
        ) {
            return Err(e);
        }
        let mut what = String::new();
        what.append("indexed the release in SQL and read it back: ");
        what.append(rows_text);
        assert(what@ =~= indexed_text(rows_text@));
        let ghost before = self.trace.steps@;
        self.trace.note("choam", what);
        proof {
            layers_after_note(before, self.trace.steps@.last(), 4, 4);
            assert(self.trace.steps@.drop_last() =~= before);
        }
        self.stage = Stage::Indexed;
        Ok(())
    }

    /// The repository was pushed: the server executed `executions` requests
    /// for `calls` calls, the transfer cost `stats`, and the server's `main`
    /// now names `server_head`. The push counts when every request ran
    /// exactly once and the server's `main` is the published commit.
    pub fn pushed(
        &mut self,
        executions: u64,
        calls: u64,
        stats: &TransferStats,
        server_head: &Option<Vec<u8>>,
        commit: &[u8],
    ) -> (r: Result<(), PipelineError>)
        requires
            old(self).wf(),
            old(self).stage == Stage::Indexed,
            totals_fit(*stats),
        ensures
            final(self).wf(),
            r is Ok <==> executions == calls && (server_head matches Some(id) && id@ == commit@),
            r matches Err(e) ==> *final(self) == *old(self) && e.0@ == (if executions != calls {
                "a request executed more than once on the server"@
            } else {
                "the server's main is not the published commit"@
            }),
            r is Ok ==> final(self).stage == Stage::Pushed && final(self).published == old(self).published && final(self).cleared is None && final(self).publisher_result == old(self).publisher_result && noted(
                old(self).trace.steps@,
                final(self).trace.steps@,
                "distrans"@,
                pushed_text(*stats),
            ),
    {
        if let Err(e) = check_exactly_once(executions, calls) {
            return Err(e);
        }
        if let Err(e) = check_server_head(server_head, commit) {
            return Err(e);
        }
        let what: String = pushed_note(stats);
        let ghost before = self.trace.steps@;
        self.trace.note("distrans", what);
        proof {
            layers_after_note(before, self.trace.steps@.last(), 5, 5);
            assert(self.trace.steps@.drop_last() =~= before);
        }
        self.stage = Stage::Pushed;
        Ok(())
    }

    /// The artifact's blob on the server was deliberately corrupted.
    pub fn sabotaged(&mut self)
        requires
            old(self).wf(),
            old(self).stage == Stage::Pushed,
        ensures
            final(self).wf(),
            final(self).stage == Stage::Pushed,
            final(self).published == old(self).published,
            final(self).cleared is None,
            final(self).publisher_result == old(self).publisher_result,
            noted(
                old(self).trace.steps@,
                final(self).trace.steps@,
                "sietch"@,
                "SABOTAGE: flipped one bit of the artifact blob stored on the server"@,
            ),
    {
        let what: String = "SABOTAGE: flipped one bit of the artifact blob stored on the server".to_owned();
        let ghost before = self.trace.steps@;
        self.trace.note("sietch", what);
        proof {
            layers_after_note(before, self.trace.steps@.last(), 3, 6);
            assert(self.trace.steps@.drop_last() =~= before);
        }
    }

    /// The consensus nodes' replicated states hold the heads `heads`; the
    /// publication took `ticks` ticks, `crashes` crashes, `restarts` restarts
    /// and `terms` terms with a leader. The head is agreed when every node
    /// holds `expected_head`, the published commit `commit_hex` in text.
    pub fn agreed(
        &mut self,
        heads: &Vec<Option<Vec<u8>>>,
        expected_head: &[u8],
        commit_hex: &str,
        ticks: u64,
        crashes: u64,
        restarts: u64,
        terms: u64,
        chaos: bool,
    ) -> (r: Result<(), PipelineError>)
        requires
            old(self).wf(),
            old(self).stage == Stage::Pushed,
            commit_hex@.len() >= 12,
        ensures
            final(self).wf(),
            r is Ok <==> heads_agree(heads@, expected_head@),
            r matches Err(e) ==> *final(self) == *old(self) && e.0@
                == "the consensus nodes do not all agree on the published head"@,
            r is Ok ==> final(self).stage == Stage::Agreed && final(self).published == old(self).published && final(self).cleared is None && final(self).publisher_result == old(self).publisher_result && noted(
                old(self).trace.steps@,
                final(self).trace.steps@,
                "landsraad"@,
                agreed_text(
                    commit_hex@,
                    ticks as nat,
                    crashes as nat,
                    restarts as nat,
                    terms as nat,
                    chaos,
                ),
            ),
    {
        if let Err(e) = check_heads_agree(heads, expected_head) {
            return Err(e);
        }
        let what: String = agreed_note(commit_hex, ticks, crashes, restarts, terms, chaos);
        let ghost before = self.trace.steps@;
        self.trace.note("landsraad", what);
        proof {
            layers_after_note(before, self.trace.steps@.last(), 6, 6);
            assert(self.trace.steps@.drop_last() =~= before);
        }
        self.stage = Stage::Agreed;
        Ok(())
    }

    /// The consumer fetched the release: the server executed `executions`
    /// requests for `calls` calls at cost `stats`; the consumer's copy of
    /// `main` names `remote_head`, against the agreed head `agreed`, with the
    /// history `complete` or not; it holds the artifact `fetched` of hash
    /// `fetched_sha` and the manifest `manifest`, while the publisher's hash is
    /// `published_sha` and the registry's `registry_sha`. The fetched artifact
    /// is cleared to run only when all of this agrees with what was published.
    pub fn fetched(
        &mut self,
        executions: u64,
        calls: u64,
        stats: &TransferStats,
        remote_head: &Option<Vec<u8>>,
        agreed: &[u8],
        complete: bool,
        fetched: Vec<u8>,
        fetched_sha: &str,
        published_sha: &str,
        registry_sha: &str,
        manifest: &str,
    ) -> (r: Result<(), PipelineError>)
        requires
            old(self).wf(),
            old(self).stage == Stage::Agreed,
            totals_fit(*stats),
            fetched_sha@.len() >= 16,
        ensures
            final(self).wf(),
            r is Ok <==> executions == calls && (remote_head matches Some(id) && id@ == agreed@)
                && complete && fetched_matches(
                fetched@,
                old(self).published@,
                fetched_sha@,
                published_sha@,
                registry_sha@,
                manifest@,
            ),
            r matches Err(e) ==> *final(self) == *old(self) && e.0@ == (if executions != calls {
                "a request executed more than once on the server"@
            } else if !((remote_head matches Some(id) && id@ == agreed@) && complete) {
                "the consumer does not hold the agreed head's complete history"@
            } else {
                "the fetched artifact does not match what was published"@
            }),
            r is Ok ==> final(self).stage == Stage::Fetched && final(self).published == old(self).published && final(self).cleared == Some(fetched) && final(self).publisher_result
                == old(self).publisher_result && noted(
                old(self).trace.steps@,
                final(self).trace.steps@.drop_last(),
                "distrans"@,
                fetched_text(*stats),
            ) && noted(
                final(self).trace.steps@.drop_last(),
                final(self).trace.steps@,
                "ghola"@,
                verified_text(fetched_sha@),
            ),
    {
        if let Err(e) = check_exactly_once(executions, calls) {
            return Err(e);
        }
        if let Err(e) = check_consumer_head(remote_head, agreed, complete) {
            return Err(e);
        }
        if let Err(e) = check_fetched(
            fetched.as_slice(),
            self.published.as_slice(),
            fetched_sha,
            published_sha,
            registry_sha,
            manifest,
        ) {
            return Err(e);
        }
        let what: String = fetched_note(stats);
        let ghost before = self.trace.steps@;
        self.trace.note("distrans", what);
        let ghost mid = self.trace.steps@;
        proof {
            layers_after_note(before, mid.last(), 5, 7);
            assert(mid.drop_last() =~= before);
        }
        let what: String = verified_note(fetched_sha);
        self.trace.note("ghola", what);
        proof {
            layers_after_note(mid, self.trace.steps@.last(), 2, 7);
            assert(self.trace.steps@.drop_last() =~= mid);
        }
        self.cleared = Some(fetched);
        self.stage = Stage::Fetched;
        Ok(())
    }

    /// The runner's capability was probed: whether it can write, and whether
    /// a wider one could be derived from it. It is attenuated when neither.
    pub fn attenuated(&mut self, can_write: bool, widened: bool) -> (r: Result<(), PipelineError>)
        requires
            old(self).wf(),
            old(self).stage == Stage::Fetched,
        ensures
            final(self).wf(),
            r is Ok <==> !can_write && !widened,
            r matches Err(e) ==> *final(self) == *old(self) && e.0@ == (if can_write {
                "the runner's capability was not attenuated: it can write"@
            } else {
                "a capability was widened by derivation"@
            }),
            r is Ok ==> final(self).stage == Stage::Attenuated && final(self).published == old(self).published && final(self).cleared == old(self).cleared
                && final(self).publisher_result == old(self).publisher_result && noted(
                old(self).trace.steps@,
                final(self).trace.steps@,
                "muaddib"@,
                granted_text(),
            ),
    {
        if let Err(e) = check_attenuation(can_write, widened) {
            return Err(e);
        }
        let what: String = "granted the runner READ|EXECUTE only; WRITE is denied and widening by derive is refused".to_owned();
        let ghost before = self.trace.steps@;
        self.trace.note("muaddib", what);
        proof {
            layers_after_note(before, self.trace.steps@.last(), 7, 7);
            assert(self.trace.steps@.drop_last() =~= before);
        }
        self.stage = Stage::Attenuated;
        Ok(())
    }

    /// The artifact the consumer may run: only once the fetched artifact
    /// passed the consumer's check and the runner's capability was shown
    /// attenuated, and then it is the fetched artifact, the published one.
    pub fn artifact_to_run(&self) -> (a: Option<&Vec<u8>>)
        requires
            self.wf(),
        ensures
            a is Some <==> self.stage == Stage::Attenuated,
            a matches Some(bytes) ==> Some(*bytes) == self.cleared && bytes@ == self.published@,
    {
        if self.stage == Stage::Attenuated {
            match &self.cleared {
                Some(bytes) => Some(bytes),
                None => None,
            }
        } else {
            None
        }
    }

    /// The consumer ran the cleared artifact and `main` returned `result`; it
    /// must be what the publisher computed.
    pub fn ran_remotely(&mut self, result: i64) -> (r: Result<(), PipelineError>)
        requires
            old(self).wf(),
            old(self).stage == Stage::Attenuated,
        ensures
            final(self).wf(),
            r is Ok <==> result == old(self).publisher_result,
            r matches Err(e) ==> *final(self) == *old(self) && e.0@ == "consumer computed "@
                + crate::text::signed_decimal(result as int) + ", publisher computed "@
                + crate::text::signed_decimal(old(self).publisher_result as int),
            r is Ok ==> final(self).stage == Stage::RanRemotely && final(self).published == old(self).published && final(self).cleared == old(self).cleared
                && final(self).publisher_result == old(self).publisher_result && noted(
                old(self).trace.steps@,
                final(self).trace.steps@,
                "mentat"@,
                consumer_ran_text(result as int),
            ),
    {
        if let Err(e) = check_same_result(result, self.publisher_result) {
            return Err(e);
        }
        let what: String = consumer_ran_note(result);
        let ghost before = self.trace.steps@;
        self.trace.note("mentat", what);
        proof {
            layers_after_note(before, self.trace.steps@.last(), 1, 8);
            assert(self.trace.steps@.drop_last() =~= before);
        }
        self.stage = Stage::RanRemotely;
        Ok(())
    }

    /// The region was revoked; `revoked` says whether the runner's capability
    /// then stopped working, as it must.
    pub fn revoked(&mut self, revoked: bool) -> (r: Result<(), PipelineError>)
        requires
            old(self).wf(),
            old(self).stage == Stage::RanRemotely,
        ensures
            final(self).wf(),
            r is Ok <==> revoked,
            r matches Err(e) ==> *final(self) == *old(self) && e.0@
                == "the runner's capability still works after revocation"@,
            r is Ok ==> final(self).stage == Stage::Revoked && final(self).published == old(self).published && final(self).cleared == old(self).cleared
                && final(self).publisher_result == old(self).publisher_result && noted(
                old(self).trace.steps@,
                final(self).trace.steps@,
                "muaddib"@,
                revoked_text(),
            ),
    {
        if let Err(e) = check_revoked(revoked) {
            return Err(e);
        }
        let what: String = "revoked the region: the runner's capability no longer works".to_owned();
        let ghost before = self.trace.steps@;
        self.trace.note("muaddib", what);
        proof {
            layers_after_note(before, self.trace.steps@.last(), 7, 8);
            assert(self.trace.steps@.drop_last() =~= before);
        }
        self.stage = Stage::Revoked;
        Ok(())
    }
}

/// The registry layer's record of the rows read back.
pub open spec fn indexed_text(rows: Seq<char>) -> Seq<char> {
    "indexed the release in SQL and read it back: "@ + rows
}

/// The capability layer's record of the runner's attenuated capability.
pub open spec fn granted_text() -> Seq<char> {
    "granted the runner READ|EXECUTE only; WRITE is denied and widening by derive is refused"@
}

/// The capability layer's record of the revocation.
pub open spec fn revoked_text() -> Seq<char> {
    "revoked the region: the runner's capability no longer works"@
}

/// A finished operation's trace names all eight layers, each once, in the
/// order in which they first take part: chakobsa, mentat, ghola, sietch,
/// choam, distrans, landsraad, muaddib.
pub proof fn a_finished_operation_names_every_layer_in_order(op: Operation)
    requires
        op.wf(),
        op.stage == Stage::Revoked,
    ensures
        first_appearances(step_layers(op.trace.steps@)) == layer_order(),
{
    assert(layer_order().take(8) =~= layer_order());
}

} // verus!
