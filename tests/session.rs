use mmap_wrapper::builder::MmapBuilder;
use mmap_wrapper::error::MapError;
use mmap_wrapper::plan::{MapPlan, CREATE_MODE, MAP_SHARED, O_CREAT, O_RDONLY, O_RDWR, PROT_READ, PROT_WRITE};
use mmap_wrapper::region::RegionHandle;
use mmap_wrapper::session::{Action, Event, MapSession, MAP_FAILED};

#[allow(dead_code)]
struct MyStruct {
    thing1: i32,
    thing2: f64,
}

/// Feeds `events` to a fresh session and collects every action, the open first.
fn drive(plan: MapPlan, events: &[Event]) -> (MapSession, Vec<Action>) {
    let (mut s, first) = MapSession::start(plan);
    let mut acts = vec![first];
    for ev in events {
        assert!(s.accepts(ev));
        acts.push(s.step(*ev));
    }
    (s, acts)
}

#[test]
fn open_failure_hands_out_open_failed() {
    let plan = MapPlan::read_only::<MyStruct>();
    let (s, acts) = drive(plan, &[Event::Opened(-1)]);
    assert!(s.is_finished());
    assert_eq!(
        acts,
        vec![
            Action::Open { flags: O_RDONLY, mode: CREATE_MODE },
            Action::Finish(Err(MapError::OpenFailed(-1))),
        ]
    );
    assert!(!acts.iter().any(|a| matches!(a, Action::Close { .. })));
}

#[test]
fn truncate_failure_closes_descriptor() {
    let plan = MapPlan::read_write::<MyStruct>();
    let (s, acts) = drive(plan, &[Event::Opened(7), Event::Truncated(-13), Event::Closed]);
    assert!(s.is_finished());
    assert_eq!(
        acts,
        vec![
            Action::Open { flags: O_CREAT | O_RDWR, mode: CREATE_MODE },
            Action::Truncate { fd: 7, len: 16 },
            Action::Close { fd: 7 },
            Action::Finish(Err(MapError::TruncateFailed(-13))),
        ]
    );
}

#[test]
fn map_failure_closes_descriptor() {
    let plan = MapPlan::read_only::<MyStruct>();
    let (_, acts) = drive(plan, &[Event::Opened(3), Event::Mapped(MAP_FAILED), Event::Closed]);
    assert_eq!(
        acts,
        vec![
            Action::Open { flags: O_RDONLY, mode: CREATE_MODE },
            Action::MapFile { fd: 3, len: 16, prot: PROT_READ, flags: MAP_SHARED },
            Action::Close { fd: 3 },
            Action::Finish(Err(MapError::MapFailed)),
        ]
    );
}

#[test]
fn read_write_session_maps_exact_length() {
    let plan = MapPlan::read_write::<MyStruct>();
    assert_eq!(plan.len, std::mem::size_of::<MyStruct>());
    let (s, acts) = drive(
        plan,
        &[Event::Opened(4), Event::Truncated(0), Event::Mapped(0x7000_0000), Event::Closed],
    );
    assert!(s.is_finished());
    let region = RegionHandle { addr: 0x7000_0000, len: 16, writable: true };
    assert_eq!(
        acts,
        vec![
            Action::Open { flags: 66, mode: 0o644 },
            Action::Truncate { fd: 4, len: 16 },
            Action::MapFile { fd: 4, len: 16, prot: PROT_READ | PROT_WRITE, flags: MAP_SHARED },
            Action::Close { fd: 4 },
            Action::Finish(Ok(region)),
        ]
    );
}

#[test]
fn read_only_session_skips_resize() {
    let plan = MapPlan::read_only::<i32>();
    let (_, acts) = drive(plan, &[Event::Opened(0), Event::Mapped(4096), Event::Closed]);
    assert_eq!(
        acts,
        vec![
            Action::Open { flags: 0, mode: 0o644 },
            Action::MapFile { fd: 0, len: 4, prot: 1, flags: 1 },
            Action::Close { fd: 0 },
            Action::Finish(Ok(RegionHandle { addr: 4096, len: 4, writable: false })),
        ]
    );
}

#[test]
fn session_refuses_unexpected_events() {
    let plan = MapPlan::read_only::<u64>();
    let (mut s, _) = MapSession::start(plan);
    assert!(!s.accepts(&Event::Closed));
    assert!(!s.accepts(&Event::Mapped(1)));
    assert!(s.accepts(&Event::Opened(5)));
    s.step(Event::Opened(5));
    assert!(!s.accepts(&Event::Opened(5)));
    assert!(!s.accepts(&Event::Truncated(0)));
    assert!(s.accepts(&Event::Mapped(1)));
    s.step(Event::Mapped(1));
    assert!(s.accepts(&Event::Closed));
    s.step(Event::Closed);
    assert!(s.is_finished());
    assert!(!s.accepts(&Event::Closed));
}

#[test]
fn truncate_on_read_only_plan_is_attempted() {
    let plan = MapPlan::for_type::<u16>(false, true);
    let (_, acts) = drive(plan, &[Event::Opened(9), Event::Truncated(0), Event::Mapped(8192), Event::Closed]);
    assert_eq!(acts[1], Action::Truncate { fd: 9, len: 2 });
    assert_eq!(acts[2], Action::MapFile { fd: 9, len: 2, prot: PROT_READ, flags: MAP_SHARED });
    assert_eq!(acts[4], Action::Finish(Ok(RegionHandle { addr: 8192, len: 2, writable: false })));
}

#[test]
fn error_codes() {
    assert_eq!(MapError::OpenFailed(-2).code(), Some(-2));
    assert_eq!(MapError::TruncateFailed(-1).code(), Some(-1));
    assert_eq!(MapError::MapFailed.code(), None);
    assert_eq!(MapError::ConversionFailed.code(), None);
    assert_eq!(MapError::WriteNotEnabled.code(), None);
    assert_eq!(MapError::InvalidPath.code(), None);
}

#[test]
fn session_finishes_after_four_answers() {
    let plan = MapPlan::read_write::<u64>();
    let (s, acts) = drive(
        plan,
        &[Event::Opened(11), Event::Truncated(0), Event::Mapped(MAP_FAILED), Event::Closed],
    );
    assert!(s.is_finished());
    assert_eq!(acts.len(), 5);
    assert_eq!(acts[4], Action::Finish(Err(MapError::MapFailed)));
    for a in &acts {
        if let Action::Close { fd } = a {
            assert_eq!(*fd, 11);
        }
    }
}

#[test]
fn writable_read_accessor_can_be_upgraded() {
    let b = MmapBuilder::new(String::from("/tmp/upgrade")).write(true);
    let (_, acts) = drive(b.plan_read::<u32>(), &[Event::Opened(5), Event::Mapped(0x9000), Event::Closed]);
    let region = match acts[3] {
        Action::Finish(Ok(r)) => r,
        other => panic!("unexpected action {:?}", other),
    };
    assert_eq!(region, RegionHandle { addr: 0x9000, len: 4, writable: true });
    assert_eq!(region.upgrade(), Ok(region));

    let b = MmapBuilder::new(String::from("/tmp/upgrade"));
    let (_, acts) = drive(b.plan_read::<u32>(), &[Event::Opened(5), Event::Mapped(0x9000), Event::Closed]);
    let region = match acts[3] {
        Action::Finish(Ok(r)) => r,
        other => panic!("unexpected action {:?}", other),
    };
    assert_eq!(region.upgrade(), Err(MapError::ConversionFailed));
}

#[test]
fn null_map_address_is_a_failure() {
    let plan = MapPlan::read_only::<u32>();
    let (_, acts) = drive(plan, &[Event::Opened(6), Event::Mapped(0), Event::Closed]);
    assert_eq!(
        acts,
        vec![
            Action::Open { flags: O_RDONLY, mode: CREATE_MODE },
            Action::MapFile { fd: 6, len: 4, prot: PROT_READ, flags: MAP_SHARED },
            Action::Close { fd: 6 },
            Action::Finish(Err(MapError::MapFailed)),
        ]
    );
}

#[test]
fn read_only_open_does_not_create() {
    let plan = MapPlan::read_only::<u32>();
    let (_, first) = MapSession::start(plan);
    assert_eq!(first, Action::Open { flags: O_RDONLY, mode: CREATE_MODE });
    let (_, first) = MapSession::start(MapPlan::read_write::<u32>());
    assert_eq!(first, Action::Open { flags: O_CREAT | O_RDWR, mode: CREATE_MODE });
}
