use plotview::watch::{first_change_index, WatchEvent, WatchEventKind};

fn event(kind: WatchEventKind) -> WatchEvent {
    WatchEvent { kind, path: String::from("scene.bin") }
}

#[test]
fn no_events_no_reload() {
    let events: Vec<WatchEvent> = vec![];
    assert_eq!(first_change_index(&events), None);
}

#[test]
fn other_events_ignored() {
    let events = vec![event(WatchEventKind::Other), event(WatchEventKind::Other)];
    assert_eq!(first_change_index(&events), None);
}

#[test]
fn write_triggers_reload() {
    let events = vec![event(WatchEventKind::Write)];
    assert_eq!(first_change_index(&events), Some(0));
}

#[test]
fn create_triggers_reload() {
    let events = vec![event(WatchEventKind::Other), event(WatchEventKind::Create)];
    assert_eq!(first_change_index(&events), Some(1));
}

#[test]
fn many_changes_coalesce_to_first() {
    let events = vec![
        event(WatchEventKind::Other),
        event(WatchEventKind::Write),
        event(WatchEventKind::Create),
        event(WatchEventKind::Write),
    ];
    assert_eq!(first_change_index(&events), Some(1));
}
