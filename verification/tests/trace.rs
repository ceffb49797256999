use arrakis_integration::{Step, Trace};

fn sample() -> Trace {
    let mut t = Trace::default();
    t.note("chakobsa", "compiled".to_string());
    t.note("mentat", "ran".to_string());
    t.note("ghola", "committed".to_string());
    t.note("sietch", "logged".to_string());
    t.note("ghola", "verified".to_string());
    t.note("mentat", "ran again".to_string());
    t
}

#[test]
fn a_new_trace_is_empty() {
    let t = Trace::default();
    assert!(t.steps.is_empty());
    assert!(t.layers().is_empty());
    assert_eq!(t.render(), "");
}

#[test]
fn note_appends_one_step_in_order() {
    let mut t = Trace::default();
    t.note("chakobsa", "first".to_string());
    t.note("mentat", "second".to_string());
    assert_eq!(
        t.steps,
        vec![
            Step { layer: "chakobsa", what: "first".to_string() },
            Step { layer: "mentat", what: "second".to_string() },
        ]
    );
}

#[test]
fn layers_are_distinct_in_order_of_first_appearance() {
    assert_eq!(sample().layers(), vec!["chakobsa", "mentat", "ghola", "sietch"]);
}

#[test]
fn every_layer_of_the_operation_can_be_found_in_the_trace() {
    let mut t = Trace::default();
    for l in ["chakobsa", "mentat", "ghola", "sietch", "choam", "distrans", "landsraad", "muaddib"] {
        t.note(l, "did something".to_string());
        t.note(l, "did it again".to_string());
    }
    let layers = t.layers();
    assert_eq!(layers.len(), 8);
    for l in ["chakobsa", "mentat", "ghola", "sietch", "choam", "distrans", "landsraad", "muaddib"] {
        assert!(layers.contains(&l));
    }
}

#[test]
fn noting_a_known_layer_leaves_the_layers_alone() {
    let mut t = sample();
    let before = t.layers();
    t.note("sietch", "again".to_string());
    assert_eq!(t.layers(), before);
    t.note("muaddib", "new".to_string());
    let mut expected = before.clone();
    expected.push("muaddib");
    assert_eq!(t.layers(), expected);
}

#[test]
fn render_numbers_and_aligns_each_line() {
    let mut t = Trace::default();
    t.note("chakobsa", "compiled 10 bytes".to_string());
    t.note("landsraad", "agreed".to_string());
    assert_eq!(
        t.render(),
        " 1. [chakobsa ] compiled 10 bytes\n 2. [landsraad] agreed\n"
    );
}

#[test]
fn render_does_not_pad_a_two_digit_number_or_cut_a_long_layer() {
    let mut t = Trace::default();
    for _ in 0..9 {
        t.note("mentat", "x".to_string());
    }
    t.note("averylonglayer", "y".to_string());
    let text = t.render();
    assert!(text.starts_with(" 1. [mentat   ] x\n"));
    assert!(text.ends_with("10. [averylonglayer] y\n"));
}

#[test]
fn noting_appends_exactly_one_line_to_the_rendering() {
    let mut t = sample();
    let before = t.render();
    t.note("muaddib", "revoked".to_string());
    assert_eq!(t.render(), format!("{before} 7. [muaddib  ] revoked\n"));
}

#[test]
fn render_of_the_sample_matches_the_documented_layout() {
    let expected = " 1. [chakobsa ] compiled\n 2. [mentat   ] ran\n 3. [ghola    ] committed\n 4. [sietch   ] logged\n 5. [ghola    ] verified\n 6. [mentat   ] ran again\n";
    assert_eq!(sample().render(), expected);
}

#[test]
fn equal_notes_give_equal_traces() {
    assert_eq!(sample(), sample());
    let mut other = sample();
    other.note("choam", "indexed".to_string());
    assert_ne!(sample(), other);
}

#[test]
fn a_trace_of_non_ascii_layers_counts_characters() {
    let mut t = Trace::default();
    t.note("sïetch", "é".to_string());
    assert_eq!(t.render(), " 1. [sïetch   ] é\n");
}
