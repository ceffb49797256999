//! The decisions of the consensus step: when the cluster is quiesced, when the
//! release head is proposed, and when the publication is over, committed or
//! timed out. The cluster itself runs outside; it reports what it holds.

use vstd::prelude::*;

use crate::pipeline::PipelineError;
use crate::text::same_bytes;

verus! {

/// Ticks the cluster runs under crashes and partitions before it is quiesced.
pub const CHAOS_TICKS: u64 = 2500;

/// The last tick by which the release head must be committed on every node.
pub const TICK_LIMIT: u64 = 60000;

/// The head is proposed again every this many ticks while no log holds it.
pub const PROPOSE_EVERY: u64 = 50;

/// Where the publication of the release head stands.
#[derive(Debug, Clone, Copy, PartialEq, Eq, Structural)]
pub struct Publication {
    /// Ticks the cluster has run.
    pub ticks: u64,
    /// Whether the cluster has been quiesced (crashes and partitions stopped).
    pub quiesced: bool,
    /// The tick at which the cluster is quiesced.
    pub chaos_ticks: u64,
}

/// What a tick ended in.
#[derive(Debug, Clone, Copy, PartialEq, Eq, Structural)]
pub enum TickEnd {
    /// Run another tick.
    Continue,
    /// Every node has committed the release head: the publication is done.
    Committed,
}

/// The message of a publication that ran out of ticks.
pub open spec fn timeout_text() -> Seq<char> {
    "the cluster did not commit the release head within 60,000 ticks"@
}

impl Publication {
    /// A publication between two ticks: within the tick limit, and quiesced
    /// exactly when the tick `chaos_ticks` has begun.
    pub open spec fn wf(self) -> bool {
        &&& self.ticks <= TICK_LIMIT
        &&& self.quiesced == (self.ticks > self.chaos_ticks)
    }

    /// A publication that has not run yet; with `chaos`, the cluster is
    /// quiesced only after `CHAOS_TICKS` ticks, otherwise at once.
    pub fn new(chaos: bool) -> (p: Publication)
        ensures
            p == (Publication {
                ticks: 0,
                quiesced: false,
                chaos_ticks: if chaos {
                    CHAOS_TICKS
                } else {
                    0
                },
            }),
            p.wf(),
    {
        Publication { ticks: 0, quiesced: false, chaos_ticks: if chaos { CHAOS_TICKS } else { 0 } }
    }

    /// Starts a tick; returns whether the cluster is to be quiesced now.
    pub fn begin_tick(&mut self) -> (quiesce: bool)
        ensures
            quiesce == (!old(self).quiesced && old(self).ticks >= old(self).chaos_ticks),
            *final(self) == begun(*old(self)),
    {
        let quiesce: bool = !self.quiesced && self.ticks >= self.chaos_ticks;
        if quiesce {
            self.quiesced = true;
        }
        quiesce
    }

    /// Whether to propose the release head in this tick: only when no node's
    /// log holds it yet, and only every `PROPOSE_EVERY` ticks.
    pub fn should_propose(&self, head_in_a_log: bool) -> (propose: bool)
        ensures
            propose == (!head_in_a_log && self.ticks % PROPOSE_EVERY == 0),
    {
        !head_in_a_log && self.ticks % PROPOSE_EVERY == 0
    }

    /// Ends a tick, once the cluster has stepped; `committed_everywhere` says
    /// whether every node has committed the release head.
    pub fn end_tick(&mut self, committed_everywhere: bool) -> (r: Result<TickEnd, PipelineError>)
        requires
            old(self).ticks <= TICK_LIMIT,
        ensures
            *final(self) == ended(*old(self)),
            r matches Ok(TickEnd::Committed) <==> tick_end(*old(self), committed_everywhere)
                == Some(true),
            r is Err <==> tick_end(*old(self), committed_everywhere) == Some(false),
            r matches Ok(TickEnd::Continue) <==> tick_end(*old(self), committed_everywhere)
                is None,
            r matches Err(e) ==> e.0@ == timeout_text(),
    {
        self.ticks = self.ticks + 1;
        if self.quiesced && committed_everywhere {
            return Ok(TickEnd::Committed);
        }
        if self.ticks > TICK_LIMIT {
            return Err(PipelineError(
                "the cluster did not commit the release head within 60,000 ticks".to_owned(),
            ));
        }
        Ok(TickEnd::Continue)
    }
}

/// The publication once a tick has begun: quiesced from the tick
/// `chaos_ticks` on.
pub open spec fn begun(p: Publication) -> Publication {
    Publication { quiesced: p.quiesced || p.ticks >= p.chaos_ticks, ..p }
}

/// The publication once a tick has ended: one tick more.
pub open spec fn ended(p: Publication) -> Publication {
    Publication { ticks: (p.ticks + 1) as u64, ..p }
}

/// How a begun tick ends: `Some(true)` when the cluster is quiesced and every
/// node has committed the head, `Some(false)` when that tick was the last one
/// allowed, `None` when the publication goes on.
pub open spec fn tick_end(p: Publication, committed_everywhere: bool) -> Option<bool> {
    if p.quiesced && committed_everywhere {
        Some(true)
    } else if p.ticks + 1 > TICK_LIMIT {
        Some(false)
    } else {
        None
    }
}

/// How a publication ends when, after each of its ticks, the cluster reports
/// in turn whether every node has committed the head (`commits`): `Some(true)`
/// committed, `Some(false)` timed out, `None` still going after those ticks.
pub open spec fn outcome(p: Publication, commits: Seq<bool>) -> Option<bool>
    decreases commits.len(),
{
    if commits.len() == 0 {
        None
    } else {
        match tick_end(begun(p), commits[0]) {
            Some(done) => Some(done),
            None => outcome(ended(begun(p)), commits.drop_first()),
        }
    }
}

/// A tick that does not end the publication leaves it well formed, one tick
/// further on.
pub proof fn a_tick_keeps_the_publication_well_formed(p: Publication, committed: bool)
    requires
        p.wf(),
        tick_end(begun(p), committed) is None,
    ensures
        ended(begun(p)).wf(),
        ended(begun(p)).ticks == p.ticks + 1,
{
}

/// The cluster is told to quiesce in exactly one tick: the tick `chaos_ticks`.
pub proof fn quiesced_exactly_once(p: Publication)
    requires
        p.wf(),
    ensures
        (!p.quiesced && p.ticks >= p.chaos_ticks) <==> p.ticks == p.chaos_ticks,
{
}

/// Every publication ends, committed or timed out, within `TICK_LIMIT + 1`
/// ticks of its start, whatever the cluster reports.
pub proof fn publication_ends_within_the_tick_limit(p: Publication, commits: Seq<bool>)
    requires
        p.wf(),
        commits.len() >= TICK_LIMIT + 1 - p.ticks,
    ensures
        outcome(p, commits) is Some,
    decreases commits.len(),
{
    if tick_end(begun(p), commits[0]) is None {
        a_tick_keeps_the_publication_well_formed(p, commits[0]);
        publication_ends_within_the_tick_limit(ended(begun(p)), commits.drop_first());
    }
}

/// No publication is taken as committed before the cluster has been quiesced:
/// not within its first `chaos_ticks` ticks, whatever the cluster reports.
pub proof fn no_commitment_before_quiescence(p: Publication, commits: Seq<bool>)
    requires
        p.wf(),
        p.ticks + commits.len() <= p.chaos_ticks,
    ensures
        outcome(p, commits) != Some(true),
    decreases commits.len(),
{
    if commits.len() > 0 && tick_end(begun(p), commits[0]) is None {
        a_tick_keeps_the_publication_well_formed(p, commits[0]);
        no_commitment_before_quiescence(ended(begun(p)), commits.drop_first());
    }
}

/// What one consensus node holds: the commands of its log, in order, and how
/// many of them are committed.
#[derive(Debug, Clone)]
pub struct NodeLog {
    pub commands: Vec<Vec<u8>>,
    pub commit_index: u64,
}

/// `commands` holds the command `cmd`.
pub open spec fn holds_command(commands: Seq<Vec<u8>>, cmd: Seq<u8>) -> bool {
    exists|i: int| 0 <= i < commands.len() && (#[trigger] commands[i])@ == cmd
}

/// Some node that is up holds `cmd` in its log, committed or not.
pub open spec fn in_some_log(nodes: Seq<Option<NodeLog>>, cmd: Seq<u8>) -> bool {
    exists|i: int|
        0 <= i < nodes.len() && (#[trigger] nodes[i] matches Some(n) && holds_command(
            n.commands@,
            cmd,
        ))
}

/// Every node is up, and the committed part of its log holds `cmd`.
pub open spec fn committed_on_all(nodes: Seq<Option<NodeLog>>, cmd: Seq<u8>) -> bool {
    forall|i: int|
        0 <= i < nodes.len() ==> (#[trigger] nodes[i] matches Some(n) && holds_command(
            n.commands@.take(n.commit_index as int),
            cmd,
        ))
}

/// No node that is up claims more committed commands than its log holds.
pub open spec fn commit_indices_in_range(nodes: Seq<Option<NodeLog>>) -> bool {
    forall|i: int|
        0 <= i < nodes.len() ==> (#[trigger] nodes[i] matches Some(n) ==> n.commit_index
            <= n.commands@.len())
}

/// Whether the first `upto` commands of `commands` hold `cmd`.
fn holds_among(commands: &Vec<Vec<u8>>, upto: usize, cmd: &[u8]) -> (r: bool)
    requires
        upto <= commands@.len(),
    ensures
        r == holds_command(commands@.take(upto as int), cmd@),
{
    let mut i: usize = 0;
    while i < upto
        invariant
            upto <= commands@.len(),
            i <= upto,
            forall|j: int| 0 <= j < i ==> (#[trigger] commands@[j])@ != cmd@,
        decreases upto - i,
    {
        if same_bytes(commands[i].as_slice(), cmd) {
            assert(commands@.take(upto as int)[i as int] == commands@[i as int]);
            return true;
        }
        i = i + 1;
    }
    assert forall|j: int| 0 <= j < upto implies (#[trigger] commands@.take(upto as int)[j])@
        != cmd@ by {
        assert(commands@.take(upto as int)[j] == commands@[j]);
    }
    false
}

/// Whether some node that is up holds the command `cmd` in its log.
pub fn head_in_a_log(nodes: &Vec<Option<NodeLog>>, cmd: &[u8]) -> (r: bool)
    ensures
        r == in_some_log(nodes@, cmd@),
{
    let mut i: usize = 0;
    while i < nodes.len()
        invariant
            i <= nodes@.len(),
            forall|j: int|
                0 <= j < i ==> !(#[trigger] nodes@[j] matches Some(n) && holds_command(
                    n.commands@,
                    cmd@,
                )),
        decreases nodes@.len() - i,
    {
        if let Some(n) = &nodes[i] {
            let found: bool = holds_among(&n.commands, n.commands.len(), cmd);
            assert(n.commands@.take(n.commands@.len() as int) =~= n.commands@);
            if found {
                return true;
            }
        }
        i = i + 1;
    }
    false
}

/// Whether every node is up and has committed the command `cmd`.
pub fn committed_everywhere(nodes: &Vec<Option<NodeLog>>, cmd: &[u8]) -> (r: bool)
    requires
        commit_indices_in_range(nodes@),
    ensures
        r == committed_on_all(nodes@, cmd@),
{
    let mut i: usize = 0;
    while i < nodes.len()
        invariant
            i <= nodes@.len(),
            commit_indices_in_range(nodes@),
            forall|j: int|
                0 <= j < i ==> (#[trigger] nodes@[j] matches Some(n) && holds_command(
                    n.commands@.take(n.commit_index as int),
                    cmd@,
                )),
        decreases nodes@.len() - i,
    {
        match &nodes[i] {
            Some(n) => {
                let len: usize = n.commands.len();
                assert(nodes@[i as int] matches Some(m) && m.commit_index <= m.commands@.len());
                assert(n.commit_index <= len);
                let upto: usize = n.commit_index as usize;
                assert(upto as int == n.commit_index as int);
                if !holds_among(&n.commands, upto, cmd) {
                    return false;
                }
            },
            None => {
                return false;
            },
        }
        i = i + 1;
    }
    true
}

/// A single node that is up has committed `cmd` exactly when `cmd` stands at
/// some position below its commit index, wherever in the committed part.
pub proof fn a_node_has_committed_when_its_committed_part_holds_the_command(
    node: NodeLog,
    cmd: Seq<u8>,
)
    requires
        node.commit_index <= node.commands@.len(),
    ensures
        committed_on_all(seq![Some(node)], cmd) <==> exists|i: int|
            0 <= i < node.commit_index && (#[trigger] node.commands@[i])@ == cmd,
{
    let part = node.commands@.take(node.commit_index as int);
    assert(seq![Some(node)][0] == Some(node));
    if exists|i: int| 0 <= i < node.commit_index && (#[trigger] node.commands@[i])@ == cmd {
        let i = choose|i: int| 0 <= i < node.commit_index && (#[trigger] node.commands@[i])@ == cmd;
        assert(part[i] == node.commands@[i]);
    }
    if holds_command(part, cmd) {
        let i = choose|i: int| 0 <= i < part.len() && (#[trigger] part[i])@ == cmd;
        assert(part[i] == node.commands@[i]);
    }
}

/// `later` is `node` after more ticks: still up, with at least the commands
/// it had committed, committed at the same positions.
pub open spec fn extends(node: Option<NodeLog>, later: Option<NodeLog>) -> bool {
    node matches Some(n) ==> (later matches Some(m) && n.commit_index <= m.commit_index
        && n.commit_index <= n.commands@.len() && m.commit_index <= m.commands@.len()
        && m.commands@.take(n.commit_index as int) == n.commands@.take(n.commit_index as int))
}

/// Committing further commands after a committed head keeps it committed on
/// every node: once every node has committed the head, it stays so however
/// many commands the nodes append and commit after it.
pub proof fn committing_more_keeps_the_head_committed(
    nodes: Seq<Option<NodeLog>>,
    later: Seq<Option<NodeLog>>,
    cmd: Seq<u8>,
)
    requires
        nodes.len() == later.len(),
        forall|i: int| 0 <= i < nodes.len() ==> extends(#[trigger] nodes[i], later[i]),
        committed_on_all(nodes, cmd),
    ensures
        committed_on_all(later, cmd),
{
    assert forall|i: int| 0 <= i < later.len() implies (#[trigger] later[i] matches Some(m)
        && holds_command(m.commands@.take(m.commit_index as int), cmd)) by {
        assert(extends(nodes[i], later[i]));
        let n = nodes[i]->Some_0;
        let m = later[i]->Some_0;
        let p = n.commands@.take(n.commit_index as int);
        let k = choose|k: int| 0 <= k < p.len() && (#[trigger] p[k])@ == cmd;
        assert(m.commands@.take(n.commit_index as int)[k] == p[k]);
        assert(m.commands@.take(m.commit_index as int)[k] == m.commands@[k]);
        assert(m.commands@.take(n.commit_index as int)[k] == m.commands@[k]);
    }
}

} // verus!
