use bookmux::timeline::{ChapterEntry, Packet, Timeline};

#[test]
fn new_timeline_is_empty() {
    let timeline = Timeline::new();
    assert_eq!(timeline.total(), 0);
    assert_eq!(timeline.span(), 0);
    assert!(timeline.chapters().is_empty());
}

#[test]
fn placed_packet_is_moved_by_the_running_total() {
    let mut timeline = Timeline::new();
    assert_eq!(
        timeline.place(Packet { pts: 0, duration: 40 }),
        Some(Packet { pts: 0, duration: 40 })
    );
    assert_eq!(
        timeline.place(Packet { pts: 40, duration: 60 }),
        Some(Packet { pts: 40, duration: 60 })
    );
    assert_eq!(timeline.span(), 100);
    assert_eq!(timeline.total(), 0);
    timeline.close_chapter("one".to_string());
    assert_eq!(timeline.total(), 100);
    assert_eq!(timeline.span(), 0);
    assert_eq!(
        timeline.place(Packet { pts: 7, duration: 3 }),
        Some(Packet { pts: 107, duration: 3 })
    );
    assert_eq!(timeline.span(), 10);
}

#[test]
fn span_is_the_furthest_end_seen() {
    let mut timeline = Timeline::new();
    timeline.place(Packet { pts: 10, duration: 5 });
    assert_eq!(timeline.span(), 15);
    timeline.place(Packet { pts: 0, duration: 2 });
    assert_eq!(timeline.span(), 15);
    timeline.place(Packet { pts: 15, duration: 0 });
    assert_eq!(timeline.span(), 15);
    timeline.place(Packet { pts: 15, duration: 1 });
    assert_eq!(timeline.span(), 16);
}

#[test]
fn closing_appends_a_contiguous_entry() {
    let mut timeline = Timeline::new();
    timeline.place(Packet { pts: 0, duration: 10 });
    timeline.close_chapter("a".to_string());
    timeline.place(Packet { pts: 0, duration: 20 });
    timeline.close_chapter("b".to_string());
    timeline.close_chapter("c".to_string());
    timeline.place(Packet { pts: 5, duration: 10 });
    timeline.close_chapter("d".to_string());
    assert_eq!(
        timeline.chapters(),
        &vec![
            ChapterEntry { title: "a".to_string(), start: 0, end: 10 },
            ChapterEntry { title: "b".to_string(), start: 10, end: 30 },
            ChapterEntry { title: "c".to_string(), start: 30, end: 30 },
            ChapterEntry { title: "d".to_string(), start: 30, end: 45 },
        ]
    );
    assert_eq!(timeline.total(), 45);
}

#[test]
fn packet_beyond_the_clock_is_refused_and_changes_nothing() {
    let mut timeline = Timeline::new();
    timeline.place(Packet { pts: 0, duration: u64::MAX - 10 });
    timeline.close_chapter("long".to_string());
    assert_eq!(timeline.place(Packet { pts: 5, duration: 6 }), None);
    assert_eq!(timeline.span(), 0);
    assert_eq!(timeline.total(), u64::MAX - 10);
    assert_eq!(timeline.place(Packet { pts: u64::MAX, duration: 1 }), None);
    assert_eq!(timeline.place(Packet { pts: 1, duration: u64::MAX }), None);
    assert_eq!(timeline.span(), 0);
    assert_eq!(
        timeline.place(Packet { pts: 5, duration: 5 }),
        Some(Packet { pts: u64::MAX - 5, duration: 5 })
    );
    assert_eq!(timeline.span(), 10);
    timeline.close_chapter("rest".to_string());
    assert_eq!(timeline.total(), u64::MAX);
    assert_eq!(timeline.place(Packet { pts: 0, duration: 0 }), Some(Packet { pts: u64::MAX, duration: 0 }));
    assert_eq!(timeline.place(Packet { pts: 0, duration: 1 }), None);
}
