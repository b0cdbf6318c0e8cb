use optra::controls::{parse_port, scrub_step, ScrubClock, ScrubStep};
use optra::open_file::{queue, take};
use optra::theme::ThemeChoice;

#[test]
fn every_theme_is_offered_and_distinct() {
    let all = ThemeChoice::all();
    assert_eq!(all.len(), 4, "all four flavours must be listed");

    let labels: Vec<&str> = all.iter().map(|t| t.label()).collect();
    let mut unique = labels.clone();
    unique.sort();
    unique.dedup();
    assert_eq!(unique.len(), labels.len(), "labels must be distinct: {labels:?}");
    assert_eq!(labels, vec!["Latte", "Frappe", "Macchiato", "Mocha"]);
    assert_eq!(ThemeChoice::default(), ThemeChoice::Macchiato);
}

#[test]
fn opened_files_are_taken_in_order_once() {
    let mut pending: Vec<String> = Vec::new();
    queue(&mut pending, "/a.exr".to_string());
    queue(&mut pending, "/b.exr".to_string());
    assert_eq!(take(&mut pending), vec!["/a.exr", "/b.exr"]);
    assert!(take(&mut pending).is_empty());
}

#[test]
fn port_field_falls_back_to_22() {
    assert_eq!(parse_port("2222"), 2222);
    assert_eq!(parse_port("+80"), 80);
    assert_eq!(parse_port("65535"), 65535);
    assert_eq!(parse_port("0"), 0);
    assert_eq!(parse_port("65536"), 22);
    assert_eq!(parse_port("999999999999"), 22);
    assert_eq!(parse_port(""), 22);
    assert_eq!(parse_port("+"), 22);
    assert_eq!(parse_port("-1"), 22);
    assert_eq!(parse_port("22a"), 22);
    assert_eq!(parse_port(" 22"), 22);
    assert_eq!(parse_port("0080"), 80);
}

#[test]
fn scrubbing_steps_on_press_and_then_per_interval() {
    // A fresh press steps at once and restarts the clock.
    assert_eq!(
        scrub_step(0, false, true, false, false),
        ScrubStep { held: 1, step: 1, clock: ScrubClock::Restart, repaint: true }
    );
    // Holding waits for the interval...
    assert_eq!(
        scrub_step(1, false, true, false, false),
        ScrubStep { held: 1, step: 0, clock: ScrubClock::Keep, repaint: true }
    );
    // ...then steps and advances the clock.
    assert_eq!(
        scrub_step(1, false, true, false, true),
        ScrubStep { held: 1, step: 1, clock: ScrubClock::Advance, repaint: true }
    );
    // A reversal steps at once.
    assert_eq!(
        scrub_step(1, false, false, true, false),
        ScrubStep { held: -1, step: -1, clock: ScrubClock::Restart, repaint: true }
    );
    // Both keys, no keys, or a focused field: nothing.
    let idle = ScrubStep { held: 0, step: 0, clock: ScrubClock::Keep, repaint: false };
    assert_eq!(scrub_step(1, false, true, true, true), idle);
    assert_eq!(scrub_step(-1, false, false, false, true), idle);
    assert_eq!(scrub_step(1, true, true, false, true), idle);
}
