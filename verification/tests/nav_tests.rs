use civiewer::nav::{NavOutcome, NavigationModel};
use civiewer::scan::ImageEntry;

fn listing(names: &[&str]) -> Vec<ImageEntry> {
    names
        .iter()
        .enumerate()
        .map(|(i, n)| ImageEntry {
            name: n.to_string(),
            path: format!("/d/{}", n),
            ordinal: i + 1,
        })
        .collect()
}

fn model(names: &[&str], portrait: &[bool], spread: bool, loop_images: bool, sfp: bool)
    -> NavigationModel {
    NavigationModel::new(listing(names), portrait.to_vec(), spread, loop_images, sfp)
}

fn selected(outcome: NavOutcome) -> String {
    match outcome {
        NavOutcome::Selected(p) => p,
        other => panic!("expected a selection, got {:?}", other),
    }
}

#[test]
fn spread_pairs_two_portraits() {
    // A and B portrait, C landscape.
    let m = model(&["a.png", "b.png", "c.png"], &[true, true, false], true, false, false);
    let set = m.resolve_render_set(&"/d/a.png".to_string());
    assert_eq!(set, ["/d/a.png", "/d/b.png"]);
    let set = m.resolve_render_set(&"/d/c.png".to_string());
    assert_eq!(set, ["/d/c.png"]);
}

#[test]
fn next_jumps_over_the_pair() {
    let mut m = model(&["a.png", "b.png", "c.png"], &[true, true, false], true, false, false);
    let got = selected(m.next(&"/d/a.png".to_string()));
    assert_eq!(got, "/d/c.png");
    let set = m.resolve_render_set(&got);
    assert_eq!(set, ["/d/c.png"]);
}

#[test]
fn single_first_page_forces_the_first_image_alone() {
    let mut m = model(&["a.png", "b.png", "c.png"], &[true, true, false], true, false, true);
    let set = m.resolve_render_set(&"/d/a.png".to_string());
    assert_eq!(set, ["/d/a.png"]);
    // and next from the first image moves one step, not two
    let got = selected(m.next(&"/d/a.png".to_string()));
    assert_eq!(got, "/d/b.png");
}

#[test]
fn next_at_the_end_signals_or_loops() {
    let mut m = model(&["a.png", "b.png", "c.png"], &[false, false, false], false, false, false);
    match m.next(&"/d/c.png".to_string()) {
        NavOutcome::RequestNextContainer => {},
        other => panic!("expected a next-container request, got {:?}", other),
    }
    assert!(m.selected.is_none(), "selection must not change at the boundary");

    let mut m = model(&["a.png", "b.png", "c.png"], &[false, false, false], false, true, false);
    let got = selected(m.next(&"/d/c.png".to_string()));
    assert_eq!(got, "/d/a.png");
    assert_eq!(m.selected.as_deref(), Some("/d/a.png"));
}

#[test]
fn prev_at_the_start_signals_or_loops() {
    let mut m = model(&["a.png", "b.png"], &[false, false], false, false, false);
    match m.prev(&"/d/a.png".to_string()) {
        NavOutcome::RequestPrevContainer => {},
        other => panic!("expected a prev-container request, got {:?}", other),
    }
    let mut m = model(&["a.png", "b.png"], &[false, false], false, true, false);
    let got = selected(m.prev(&"/d/a.png".to_string()));
    assert_eq!(got, "/d/b.png");
}

#[test]
fn prev_steps_back_over_a_pair() {
    // b and c portrait: prev from d lands on b, the start of the pair.
    let m0 = &["a.png", "b.png", "c.png", "d.png"];
    let mut m = model(m0, &[false, true, true, false], true, false, false);
    let got = selected(m.prev(&"/d/d.png".to_string()));
    assert_eq!(got, "/d/b.png");
    // without spread mode it steps one back
    let mut m = model(m0, &[false, true, true, false], false, false, false);
    let got = selected(m.prev(&"/d/d.png".to_string()));
    assert_eq!(got, "/d/c.png");
}

#[test]
fn single_steps_ignore_spread_and_stop_at_the_edges() {
    let mut m = model(&["a.png", "b.png", "c.png"], &[true, true, true], true, true, false);
    let got = selected(m.next_single(&"/d/a.png".to_string()));
    assert_eq!(got, "/d/b.png");
    match m.next_single(&"/d/c.png".to_string()) {
        NavOutcome::NoChange => {},
        other => panic!("expected no change, got {:?}", other),
    }
    match m.prev_single(&"/d/a.png".to_string()) {
        NavOutcome::NoChange => {},
        other => panic!("expected no change, got {:?}", other),
    }
    let got = selected(m.prev_single(&"/d/c.png".to_string()));
    assert_eq!(got, "/d/b.png");
}

#[test]
fn unknown_paths_render_alone_and_move_nothing() {
    let mut m = model(&["a.png"], &[true], true, true, false);
    let set = m.resolve_render_set(&"/elsewhere.png".to_string());
    assert_eq!(set, ["/elsewhere.png"]);
    match m.next(&"/elsewhere.png".to_string()) {
        NavOutcome::NoChange => {},
        other => panic!("expected no change, got {:?}", other),
    }
}

#[test]
fn select_first_and_orientation_updates() {
    let mut m = model(&["a.png", "b.png"], &[false, false], true, false, false);
    let got = selected(m.select_first());
    assert_eq!(got, "/d/a.png");
    // once both are known portrait, the pair appears
    m.set_orientation(0, true);
    m.set_orientation(1, true);
    let set = m.resolve_render_set(&"/d/a.png".to_string());
    assert_eq!(set, ["/d/a.png", "/d/b.png"]);
    assert_eq!(m.path_at(1).as_deref(), Some("/d/b.png"));
    assert_eq!(m.path_at(2), None);
    assert_eq!(m.len(), 2);
}

#[test]
fn empty_listing_offers_nothing() {
    let mut m = model(&[], &[], true, true, false);
    match m.select_first() {
        NavOutcome::NoChange => {},
        other => panic!("expected no change, got {:?}", other),
    }
    assert_eq!(m.len(), 0);
    assert_eq!(m.path_at(0), None);
}

#[test]
fn single_entry_list_loops_onto_itself() {
    let mut m = model(&["a.png"], &[false], false, true, false);
    let got = selected(m.next(&"/d/a.png".to_string()));
    assert_eq!(got, "/d/a.png");
    let got = selected(m.prev(&"/d/a.png".to_string()));
    assert_eq!(got, "/d/a.png");
}

#[test]
fn pairing_needs_both_portraits() {
    let m = model(&["a.png", "b.png"], &[true, false], true, false, false);
    assert_eq!(m.resolve_render_set(&"/d/a.png".to_string()), ["/d/a.png"]);
    let m = model(&["a.png", "b.png"], &[false, true], true, false, false);
    assert_eq!(m.resolve_render_set(&"/d/a.png".to_string()), ["/d/a.png"]);
    // the last image has no partner to pair with
    let m = model(&["a.png", "b.png"], &[true, true], true, false, false);
    assert_eq!(m.resolve_render_set(&"/d/b.png".to_string()), ["/d/b.png"]);
}
