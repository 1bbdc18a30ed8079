use notify_manager::event::{
    AccessKind, AccessMode, CreateKind, DataChange, DateTime, Event, EventKind, MetadataKind,
    ModifyKind, RemoveKind, RenameMode,
};

fn round_trip(e: &Event) {
    let b = e.to_bytes();
    assert_eq!(Event::from_bytes(&b).as_ref(), Some(e));
}

#[test]
fn small_event_has_exact_bytes() {
    let e = Event { kind: EventKind::Create(CreateKind::File), paths: vec![b"ab".to_vec()], time: None };
    let b = e.to_bytes();
    assert_eq!(b, vec![2, 1, 0, 1, 0, 0, 0, 0, 0, 0, 0, 2, 0, 0, 0, 0, 0, 0, 0, b'a', b'b', 0]);
}

#[test]
fn time_is_little_endian_seconds_then_nanos() {
    let e = Event {
        kind: EventKind::Other,
        paths: vec![],
        time: Some(DateTime { secs: 0x0102, nanos: 7 }),
    };
    let b = e.to_bytes();
    assert_eq!(
        b,
        vec![5, 0, 0, 0, 0, 0, 0, 0, 0, 0, 0, 1, 2, 1, 0, 0, 0, 0, 0, 0, 7, 0, 0, 0, 0, 0, 0, 0]
    );
}

#[test]
fn rename_round_trips_with_both_paths_and_time() {
    round_trip(&Event {
        kind: EventKind::Modify(ModifyKind::Name(RenameMode::Both)),
        paths: vec![b"/old/name".to_vec(), b"/new/name".to_vec()],
        time: Some(DateTime { secs: -5, nanos: 999_999_999 }),
    });
}

#[test]
fn every_kind_round_trips() {
    let kinds = vec![
        EventKind::Any,
        EventKind::Access(AccessKind::Any),
        EventKind::Access(AccessKind::Read),
        EventKind::Access(AccessKind::Open(AccessMode::Execute)),
        EventKind::Access(AccessKind::Close(AccessMode::Write)),
        EventKind::Access(AccessKind::Other),
        EventKind::Create(CreateKind::Folder),
        EventKind::Modify(ModifyKind::Any),
        EventKind::Modify(ModifyKind::Data(DataChange::Content)),
        EventKind::Modify(ModifyKind::Metadata(MetadataKind::Ownership)),
        EventKind::Modify(ModifyKind::Name(RenameMode::From)),
        EventKind::Modify(ModifyKind::Other),
        EventKind::Remove(RemoveKind::Other),
        EventKind::Other,
    ];
    for kind in kinds {
        round_trip(&Event { kind, paths: vec![b"/p".to_vec(), vec![]], time: None });
    }
}

#[test]
fn truncated_or_padded_bytes_are_rejected() {
    let e = Event { kind: EventKind::Remove(RemoveKind::File), paths: vec![b"/f".to_vec()], time: None };
    let b = e.to_bytes();
    assert_eq!(Event::from_bytes(&b[..b.len() - 1]), None);
    let mut longer = b.clone();
    longer.push(0);
    assert_eq!(Event::from_bytes(&longer), None);
    assert_eq!(Event::from_bytes(&[]), None);
}

#[test]
fn unknown_kind_is_rejected() {
    let mut b = Event { kind: EventKind::Any, paths: vec![], time: None }.to_bytes();
    b[0] = 9;
    assert_eq!(Event::from_bytes(&b), None);
}

#[test]
fn nanos_beyond_u32_are_rejected() {
    let mut b = Event { kind: EventKind::Any, paths: vec![], time: Some(DateTime { secs: 1, nanos: 1 }) }.to_bytes();
    let n = b.len();
    b[n - 4] = 1;
    assert_eq!(Event::from_bytes(&b), None);
}

#[test]
fn path_count_beyond_the_bytes_is_rejected() {
    let mut b = Event { kind: EventKind::Any, paths: vec![], time: None }.to_bytes();
    b[3] = 200;
    assert_eq!(Event::from_bytes(&b), None);
}
