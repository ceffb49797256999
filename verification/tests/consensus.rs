use arrakis_integration::consensus::{
    committed_everywhere, head_in_a_log, NodeLog, Publication, TickEnd, CHAOS_TICKS, TICK_LIMIT,
};

fn node(commands: &[&[u8]], commit_index: u64) -> Option<NodeLog> {
    Some(NodeLog { commands: commands.iter().map(|c| c.to_vec()).collect(), commit_index })
}

#[test]
fn a_clean_publication_quiesces_at_once() {
    let mut p = Publication::new(false);
    assert_eq!(p.chaos_ticks, 0);
    assert!(p.begin_tick());
    assert!(p.quiesced);
    assert!(matches!(p.end_tick(false), Ok(TickEnd::Continue)));
    assert!(!p.begin_tick());
    assert!(matches!(p.end_tick(true), Ok(TickEnd::Committed)));
    assert_eq!(p.ticks, 2);
}

#[test]
fn a_chaotic_publication_quiesces_after_the_chaos_ticks() {
    let mut p = Publication::new(true);
    assert_eq!(p.chaos_ticks, CHAOS_TICKS);
    let mut quiesced_at = None;
    for _ in 0..3000 {
        if p.begin_tick() {
            assert!(quiesced_at.is_none());
            quiesced_at = Some(p.ticks);
        }
        // Commitment before quiescence does not count.
        match p.end_tick(true).unwrap() {
            TickEnd::Committed => break,
            TickEnd::Continue => {}
        }
    }
    assert_eq!(quiesced_at, Some(2500));
    assert_eq!(p.ticks, 2501);
}

#[test]
fn a_publication_times_out_after_the_tick_limit() {
    let mut p = Publication::new(false);
    let mut ticks = 0u64;
    let err = loop {
        p.begin_tick();
        match p.end_tick(false) {
            Ok(TickEnd::Continue) => ticks += 1,
            Ok(TickEnd::Committed) => panic!("nothing was committed"),
            Err(e) => break e,
        }
    };
    assert_eq!(ticks, TICK_LIMIT);
    assert_eq!(p.ticks, TICK_LIMIT + 1);
    assert_eq!(err.0, "the cluster did not commit the release head within 60,000 ticks");
}

#[test]
fn commitment_on_the_last_tick_still_counts() {
    let mut p = Publication { ticks: TICK_LIMIT, quiesced: true, chaos_ticks: 0 };
    assert!(matches!(p.end_tick(true), Ok(TickEnd::Committed)));
}

#[test]
fn the_head_is_proposed_every_fifty_ticks_while_no_log_holds_it() {
    let mut p = Publication::new(false);
    assert!(p.should_propose(false));
    assert!(!p.should_propose(true));
    p.ticks = 49;
    assert!(!p.should_propose(false));
    p.ticks = 100;
    assert!(p.should_propose(false));
}

#[test]
fn a_log_holding_the_head_is_found_on_any_live_node() {
    let head: &[u8] = b"put release/latest";
    let nodes = vec![None, node(&[b"noop"], 1), node(&[b"noop", head], 1)];
    assert!(head_in_a_log(&nodes, head));
    let nodes = vec![node(&[b"noop"], 1), None];
    assert!(!head_in_a_log(&nodes, head));
    assert!(!head_in_a_log(&vec![], head));
}

#[test]
fn committed_everywhere_needs_every_node_up_and_committed() {
    let head: &[u8] = b"put release/latest";
    let all = vec![node(&[head], 1), node(&[b"noop", head], 2), node(&[head, b"x"], 1)];
    assert!(committed_everywhere(&all, head));
    let uncommitted = vec![node(&[head], 1), node(&[b"noop", head], 1)];
    assert!(!committed_everywhere(&uncommitted, head));
    let down = vec![node(&[head], 1), None];
    assert!(!committed_everywhere(&down, head));
    assert!(committed_everywhere(&vec![], head));
}
