use openwurli_dsp::plugin::{plan_process, ProcessStep};

use ProcessStep::{HandleEvent, Render};

#[test]
fn no_events_renders_whole_buffer() {
    assert_eq!(plan_process(&vec![], 512), vec![Render { start: 0, end: 512 }]);
}

#[test]
fn empty_buffer_does_nothing() {
    assert!(plan_process(&vec![0, 3], 0).is_empty());
}

#[test]
fn events_split_blocks_at_their_offsets() {
    assert_eq!(
        plan_process(&vec![0, 100, 100, 300], 512),
        vec![
            HandleEvent(0),
            Render { start: 0, end: 100 },
            HandleEvent(1),
            HandleEvent(2),
            Render { start: 100, end: 300 },
            HandleEvent(3),
            Render { start: 300, end: 512 },
        ]
    );
}

#[test]
fn events_past_the_end_are_handled_last() {
    assert_eq!(
        plan_process(&vec![511, 512, 900], 512),
        vec![
            Render { start: 0, end: 511 },
            HandleEvent(0),
            Render { start: 511, end: 512 },
            HandleEvent(1),
            HandleEvent(2),
        ]
    );
}

#[test]
fn late_offset_after_earlier_one_waits_for_boundary() {
    assert_eq!(
        plan_process(&vec![200, 50], 256),
        vec![
            Render { start: 0, end: 200 },
            HandleEvent(0),
            HandleEvent(1),
            Render { start: 200, end: 256 },
        ]
    );
}
