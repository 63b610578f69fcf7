use vstd::prelude::*;
use crate::error::MapError;
use crate::plan::{MapPlan, CREATE_MODE, MAP_SHARED, O_CREAT, O_RDONLY, O_RDWR, PROT_READ, PROT_WRITE};
use crate::region::RegionHandle;

verus! {

/// The value the map call returns when it fails.
pub const MAP_FAILED: usize = usize::MAX;

/// The next call that the driver of a session makes, or the session's result.
#[derive(Debug, Clone, Copy, PartialEq, Eq)]
pub enum Action {
    /// Open the path with these flags, creating the file with this mode.
    Open { flags: i32, mode: u32 },
    /// Resize the opened file to `len` bytes.
    Truncate { fd: i32, len: usize },
    /// Map `len` bytes of the opened file from offset zero.
    MapFile { fd: i32, len: usize, prot: i32, flags: i32 },
    /// Close the descriptor.
    Close { fd: i32 },
    /// The session is over: the mapped region, or why there is none.
    Finish(Result<RegionHandle, MapError>),
}

/// What a call of the driver returned.
#[derive(Debug, Clone, Copy, PartialEq, Eq, Structural)]
pub enum Event {
    /// The open call returned this descriptor, or on failure the negated OS
    /// error code.
    Opened(i32),
    /// The resize call returned zero, or on failure the negated OS error code.
    Truncated(i32),
    /// The map call returned this address; `MAP_FAILED` or a null address is a
    /// failure.
    Mapped(usize),
    /// The close call returned.
    Closed,
}

/// Where a session stands.
#[derive(Debug, Clone, Copy, PartialEq, Eq)]
pub enum Phase {
    /// The open call is pending.
    Opening,
    /// The resize call on `fd` is pending.
    Truncating { fd: i32 },
    /// The map call on `fd` is pending.
    Mapping { fd: i32 },
    /// The close call on `fd` is pending; `outcome` is handed out after it.
    Closing { fd: i32, outcome: Result<RegionHandle, MapError> },
    /// The session handed out `outcome` and makes no more calls.
    Finished(Result<RegionHandle, MapError>),
}

/// The descriptor that a session holds open and has not yet asked to close.
pub open spec fn held(phase: Phase) -> Option<i32> {
    match phase {
        Phase::Truncating { fd } => Some(fd),
        Phase::Mapping { fd } => Some(fd),
        _ => None,
    }
}

/// Whether `ev` answers the call that `phase` waits for.
pub open spec fn expects(phase: Phase, ev: Event) -> bool {
    match phase {
        Phase::Opening => ev is Opened,
        Phase::Truncating { .. } => ev is Truncated,
        Phase::Mapping { .. } => ev is Mapped,
        Phase::Closing { .. } => ev is Closed,
        Phase::Finished(_) => false,
    }
}

/// The call that follows a descriptor `fd` which is open: the resize where the
/// plan asks for one, else the map.
pub open spec fn after_open(plan: MapPlan, fd: i32) -> (Phase, Action) {
    if plan.truncate {
        (Phase::Truncating { fd }, Action::Truncate { fd, len: plan.len })
    } else {
        (Phase::Mapping { fd }, Action::MapFile { fd, len: plan.len, prot: plan.spec_protection(), flags: MAP_SHARED })
    }
}

/// One step of the mapping protocol: from where the session stands and what
/// the last call returned, to where it stands next and the call it asks for.
///
/// A negative descriptor ends the session with `OpenFailed` and nothing to
/// close. A failed resize or map closes the descriptor before its error is
/// handed out; a successful map closes it too, since the mapping does not need
/// it. A map that returns a null address counts as failed, so no null region
/// is ever handed out.
pub open spec fn transition(plan: MapPlan, phase: Phase, ev: Event) -> (Phase, Action) {
    match (phase, ev) {
        (Phase::Opening, Event::Opened(fd)) => {
            if fd < 0 {
                (Phase::Finished(Err(MapError::OpenFailed(fd))), Action::Finish(Err(MapError::OpenFailed(fd))))
            } else {
                after_open(plan, fd)
            }
        },
        (Phase::Truncating { fd }, Event::Truncated(res)) => {
            if res < 0 {
                (Phase::Closing { fd, outcome: Err(MapError::TruncateFailed(res)) }, Action::Close { fd })
            } else {
                (Phase::Mapping { fd }, Action::MapFile { fd, len: plan.len, prot: plan.spec_protection(), flags: MAP_SHARED })
            }
        },
        (Phase::Mapping { fd }, Event::Mapped(addr)) => {
            if addr == MAP_FAILED || addr == 0 {
                (Phase::Closing { fd, outcome: Err(MapError::MapFailed) }, Action::Close { fd })
            } else {
                (
                    Phase::Closing { fd, outcome: Ok(RegionHandle { addr, len: plan.len, writable: plan.write }) },
                    Action::Close { fd },
                )
            }
        },
        (Phase::Closing { outcome, .. }, Event::Closed) => (Phase::Finished(outcome), Action::Finish(outcome)),
        // an event that answers no pending call; `step` never takes one
        _ => (phase, Action::Finish(Err(MapError::MapFailed))),
    }
}

/// The acquisition of one mapping, driven one call at a time.
pub struct MapSession {
    plan: MapPlan,
    phase: Phase,
}

impl MapSession {
    /// What the session maps.
    pub closed spec fn spec_plan(&self) -> MapPlan {
        self.plan
    }

    /// Where the session stands.
    pub closed spec fn spec_phase(&self) -> Phase {
        self.phase
    }

    /// Starts a session for `plan`; the first call is the open.
    pub fn start(plan: MapPlan) -> (r: (MapSession, Action))
        ensures
            r.0.spec_plan() == plan,
            r.0.spec_phase() == Phase::Opening,
            r.1 == open_action(plan),
    {
        let flags = plan.open_flags();
        (MapSession { plan, phase: Phase::Opening }, Action::Open { flags, mode: CREATE_MODE })
    }

    /// Whether `ev` answers the call the session waits for.
    pub fn accepts(&self, ev: &Event) -> (r: bool)
        ensures
            r == expects(self.spec_phase(), *ev),
    {
        match (self.phase, *ev) {
            (Phase::Opening, Event::Opened(_)) => true,
            (Phase::Truncating { .. }, Event::Truncated(_)) => true,
            (Phase::Mapping { .. }, Event::Mapped(_)) => true,
            (Phase::Closing { .. }, Event::Closed) => true,
            _ => false,
        }
    }

    /// Whether the session has handed out its result.
    pub fn is_finished(&self) -> (r: bool)
        ensures
            r == (self.spec_phase() is Finished),
    {
        match self.phase {
            Phase::Finished(_) => true,
            _ => false,
        }
    }

    /// Takes what the pending call returned and gives the next call.
    pub fn step(&mut self, ev: Event) -> (act: Action)
        requires
            expects(old(self).spec_phase(), ev),
        ensures
            final(self).spec_plan() == old(self).spec_plan(),
            (final(self).spec_phase(), act) == transition(old(self).spec_plan(), old(self).spec_phase(), ev),
    {
        let plan = self.plan;
        match (self.phase, ev) {
            (Phase::Opening, Event::Opened(fd)) => {
                if fd < 0 {
                    self.phase = Phase::Finished(Err(MapError::OpenFailed(fd)));
                    Action::Finish(Err(MapError::OpenFailed(fd)))
                } else if plan.truncate {
                    self.phase = Phase::Truncating { fd };
                    Action::Truncate { fd, len: plan.len }
                } else {
                    self.phase = Phase::Mapping { fd };
                    Action::MapFile { fd, len: plan.len, prot: plan.protection(), flags: MAP_SHARED }
                }
            },
            (Phase::Truncating { fd }, Event::Truncated(res)) => {
                if res < 0 {
                    self.phase = Phase::Closing { fd, outcome: Err(MapError::TruncateFailed(res)) };
                    Action::Close { fd }
                } else {
                    self.phase = Phase::Mapping { fd };
                    Action::MapFile { fd, len: plan.len, prot: plan.protection(), flags: MAP_SHARED }
                }
            },
            (Phase::Mapping { fd }, Event::Mapped(addr)) => {
                if addr == MAP_FAILED || addr == 0 {
                    self.phase = Phase::Closing { fd, outcome: Err(MapError::MapFailed) };
                } else {
                    let handle = RegionHandle { addr, len: plan.len, writable: plan.write };
                    self.phase = Phase::Closing { fd, outcome: Ok(handle) };
                }
                Action::Close { fd }
            },
            (Phase::Closing { outcome, .. }, Event::Closed) => {
                self.phase = Phase::Finished(outcome);
                Action::Finish(outcome)
            },
            _ => Action::Finish(Err(MapError::MapFailed)),
        }
    }
}

/// The call that starts a session for `plan`.
pub open spec fn open_action(plan: MapPlan) -> Action {
    Action::Open { flags: plan.spec_open_flags(), mode: CREATE_MODE }
}

/// Whether a session standing at `phase` accepts each of `evs` in turn.
pub open spec fn accepted(plan: MapPlan, phase: Phase, evs: Seq<Event>) -> bool
    decreases evs.len(),
{
    evs.len() == 0 || (expects(phase, evs[0]) && accepted(plan, transition(plan, phase, evs[0]).0, evs.drop_first()))
}

/// Where a session standing at `phase` ends after `evs`, and the calls it asks for
/// on the way.
pub open spec fn run_from(plan: MapPlan, phase: Phase, evs: Seq<Event>) -> (Phase, Seq<Action>)
    decreases evs.len(),
{
    if evs.len() == 0 {
        (phase, Seq::<Action>::empty())
    } else {
        let (next, act) = transition(plan, phase, evs[0]);
        let (last, rest) = run_from(plan, next, evs.drop_first());
        (last, seq![act] + rest)
    }
}

/// A whole session for `plan` over `evs`: where it ends, and every call it asks
/// for, the open first.
pub open spec fn run(plan: MapPlan, evs: Seq<Event>) -> (Phase, Seq<Action>) {
    let (last, acts) = run_from(plan, Phase::Opening, evs);
    (last, seq![open_action(plan)] + acts)
}

/// How many of `acts` close a descriptor.
pub open spec fn closes(acts: Seq<Action>) -> nat
    decreases acts.len(),
{
    if acts.len() == 0 {
        0
    } else {
        (if acts[0] is Close { 1nat } else { 0nat }) + closes(acts.drop_first())
    }
}

/// Whether `ev` reports a descriptor that was opened.
pub open spec fn opened(ev: Event) -> bool {
    ev matches Event::Opened(fd) && fd >= 0
}

/// How many of `evs` report a descriptor that was opened.
pub open spec fn opens(evs: Seq<Event>) -> nat
    decreases evs.len(),
{
    if evs.len() == 0 {
        0
    } else {
        (if opened(evs[0]) { 1nat } else { 0nat }) + opens(evs.drop_first())
    }
}

/// One while the session holds a descriptor that it has not asked to close.
pub open spec fn pending(phase: Phase) -> nat {
    if held(phase) is Some { 1 } else { 0 }
}

proof fn lemma_closes_prepend(a: Action, rest: Seq<Action>)
    ensures
        closes(seq![a] + rest) == (if a is Close { 1nat } else { 0nat }) + closes(rest),
{
    assert((seq![a] + rest).drop_first() =~= rest);
}

/// Every close asked for answers an open that succeeded, and an open descriptor
/// stays pending until its close is asked for.
proof fn lemma_descriptor_balance(plan: MapPlan, phase: Phase, evs: Seq<Event>)
    requires
        accepted(plan, phase, evs),
    ensures
        closes(run_from(plan, phase, evs).1) + pending(run_from(plan, phase, evs).0) == pending(phase) + opens(evs),
    decreases evs.len(),
{
    if evs.len() > 0 {
        let (next, act) = transition(plan, phase, evs[0]);
        let (last, rest) = run_from(plan, next, evs.drop_first());
        lemma_descriptor_balance(plan, next, evs.drop_first());
        lemma_closes_prepend(act, rest);
    }
}

/// Once the open call has been answered, no later event of an accepted run is
/// another open.
proof fn lemma_no_second_open(plan: MapPlan, phase: Phase, evs: Seq<Event>)
    requires
        accepted(plan, phase, evs),
        phase != Phase::Opening,
    ensures
        opens(evs) == 0,
    decreases evs.len(),
{
    if evs.len() > 0 {
        let next = transition(plan, phase, evs[0]).0;
        lemma_no_second_open(plan, next, evs.drop_first());
    }
}

/// A session whose open fails asks for nothing more: it hands out `OpenFailed`
/// with the code that the open call reported, and has no descriptor to close.
/// A read-only session opens without asking for the file to be created, so an
/// absent file makes its open fail.
pub proof fn lemma_open_failure(plan: MapPlan, code: i32)
    requires
        code < 0,
    ensures
        !plan.write ==> open_action(plan) == (Action::Open { flags: O_RDONLY, mode: CREATE_MODE }),
        run(plan, seq![Event::Opened(code)]) == (
            Phase::Finished(Err(MapError::OpenFailed(code))),
            seq![open_action(plan), Action::Finish(Err(MapError::OpenFailed(code)))],
        ),
{
    assert(seq![Event::Opened(code)].drop_first() =~= Seq::<Event>::empty());
    reveal_with_fuel(run_from, 2);
    assert(seq![Action::Finish(Err(MapError::OpenFailed(code)))] + Seq::<Action>::empty()
        =~= seq![Action::Finish(Err(MapError::OpenFailed(code)))]);
    assert(seq![open_action(plan)] + seq![Action::Finish(Err(MapError::OpenFailed(code)))]
        =~= seq![open_action(plan), Action::Finish(Err(MapError::OpenFailed(code)))]);
}

/// When the resize fails, the session closes the descriptor that it opened
/// before it hands out `TruncateFailed` with the value the resize returned.
pub proof fn lemma_truncate_failure_closes(plan: MapPlan, fd: i32, code: i32)
    requires
        plan.truncate,
        fd >= 0,
        code < 0,
    ensures
        accepted(plan, Phase::Opening, seq![Event::Opened(fd), Event::Truncated(code), Event::Closed]),
        run(plan, seq![Event::Opened(fd), Event::Truncated(code), Event::Closed]) == (
            Phase::Finished(Err(MapError::TruncateFailed(code))),
            seq![
                open_action(plan),
                Action::Truncate { fd, len: plan.len },
                Action::Close { fd },
                Action::Finish(Err(MapError::TruncateFailed(code))),
            ],
        ),
{
    let evs = seq![Event::Opened(fd), Event::Truncated(code), Event::Closed];
    let err = MapError::TruncateFailed(code);
    assert(evs.drop_first() =~= seq![Event::Truncated(code), Event::Closed]);
    assert(evs.drop_first().drop_first() =~= seq![Event::Closed]);
    assert(evs.drop_first().drop_first().drop_first() =~= Seq::<Event>::empty());
    assert(accepted(plan, Phase::Opening, evs)) by {
        reveal_with_fuel(accepted, 4);
    }
    reveal_with_fuel(run_from, 4);
    let acts = run_from(plan, Phase::Opening, evs).1;
    assert(acts =~= seq![Action::Truncate { fd, len: plan.len }, Action::Close { fd }, Action::Finish(Err(err))]);
    assert(seq![open_action(plan)] + acts =~= seq![
        open_action(plan),
        Action::Truncate { fd, len: plan.len },
        Action::Close { fd },
        Action::Finish(Err(err)),
    ]);
}

/// A writable, resizing session whose calls all succeed opens the file
/// read-write and creating it, resizes it to the plan's length, maps exactly
/// that many bytes readable, writable and shared, closes the descriptor, and
/// hands out the region at the address the map call returned.
pub proof fn lemma_read_write_success(plan: MapPlan, fd: i32, status: i32, addr: usize)
    requires
        plan.write,
        plan.truncate,
        fd >= 0,
        status >= 0,
        addr != MAP_FAILED,
        addr != 0,
    ensures
        accepted(plan, Phase::Opening, seq![Event::Opened(fd), Event::Truncated(status), Event::Mapped(addr), Event::Closed]),
        run(plan, seq![Event::Opened(fd), Event::Truncated(status), Event::Mapped(addr), Event::Closed]) == (
            Phase::Finished(Ok(RegionHandle { addr, len: plan.len, writable: true })),
            seq![
                Action::Open { flags: O_CREAT | O_RDWR, mode: CREATE_MODE },
                Action::Truncate { fd, len: plan.len },
                Action::MapFile { fd, len: plan.len, prot: PROT_READ | PROT_WRITE, flags: MAP_SHARED },
                Action::Close { fd },
                Action::Finish(Ok(RegionHandle { addr, len: plan.len, writable: true })),
            ],
        ),
{
    let evs = seq![Event::Opened(fd), Event::Truncated(status), Event::Mapped(addr), Event::Closed];
    let h = RegionHandle { addr, len: plan.len, writable: true };
    assert(evs.drop_first() =~= seq![Event::Truncated(status), Event::Mapped(addr), Event::Closed]);
    assert(evs.drop_first().drop_first() =~= seq![Event::Mapped(addr), Event::Closed]);
    assert(evs.drop_first().drop_first().drop_first() =~= seq![Event::Closed]);
    assert(evs.drop_first().drop_first().drop_first().drop_first() =~= Seq::<Event>::empty());
    assert(accepted(plan, Phase::Opening, evs)) by {
        reveal_with_fuel(accepted, 5);
    }
    reveal_with_fuel(run_from, 5);
    let acts = run_from(plan, Phase::Opening, evs).1;
    assert(acts =~= seq![
        Action::Truncate { fd, len: plan.len },
        Action::MapFile { fd, len: plan.len, prot: PROT_READ | PROT_WRITE, flags: MAP_SHARED },
        Action::Close { fd },
        Action::Finish(Ok(h)),
    ]);
    assert(seq![open_action(plan)] + acts =~= seq![
        Action::Open { flags: O_CREAT | O_RDWR, mode: CREATE_MODE },
        Action::Truncate { fd, len: plan.len },
        Action::MapFile { fd, len: plan.len, prot: PROT_READ | PROT_WRITE, flags: MAP_SHARED },
        Action::Close { fd },
        Action::Finish(Ok(h)),
    ]);
}

/// No descriptor leaks: in every session that has handed out its result, the
/// number of close calls asked for equals the number of descriptors that were
/// opened, which is one when the open succeeded and zero when it failed.
pub proof fn lemma_no_descriptor_leak(plan: MapPlan, evs: Seq<Event>)
    requires
        accepted(plan, Phase::Opening, evs),
        run(plan, evs).0 is Finished,
    ensures
        closes(run(plan, evs).1) == (if evs.len() > 0 && opened(evs[0]) { 1nat } else { 0nat }),
{
    lemma_descriptor_balance(plan, Phase::Opening, evs);
    lemma_closes_prepend(open_action(plan), run_from(plan, Phase::Opening, evs).1);
    if evs.len() > 0 {
        let next = transition(plan, Phase::Opening, evs[0]).0;
        lemma_no_second_open(plan, next, evs.drop_first());
    }
}

/// How many more calls a session standing at `phase` can ask for.
pub open spec fn calls_left(phase: Phase) -> nat {
    match phase {
        Phase::Opening => 4,
        Phase::Truncating { .. } => 3,
        Phase::Mapping { .. } => 2,
        Phase::Closing { .. } => 1,
        Phase::Finished(_) => 0,
    }
}

/// The descriptor that a session standing at `phase` works on.
pub open spec fn descriptor(phase: Phase) -> Option<i32> {
    match phase {
        Phase::Truncating { fd } => Some(fd),
        Phase::Mapping { fd } => Some(fd),
        Phase::Closing { fd, .. } => Some(fd),
        _ => None,
    }
}

/// Whether every close among `acts` names `fd`.
pub open spec fn closes_only(acts: Seq<Action>, fd: i32) -> bool {
    forall|i: int| 0 <= i < acts.len() && (#[trigger] acts[i]) is Close ==> acts[i] == (Action::Close { fd })
}

proof fn lemma_calls_left(plan: MapPlan, phase: Phase, evs: Seq<Event>)
    requires
        accepted(plan, phase, evs),
    ensures
        evs.len() <= calls_left(phase),
    decreases evs.len(),
{
    if evs.len() > 0 {
        lemma_calls_left(plan, transition(plan, phase, evs[0]).0, evs.drop_first());
    }
}

/// Every session ends: whatever the calls return, it takes at most four
/// answers (open, resize, map, close) before it hands out its result.
pub proof fn lemma_session_ends(plan: MapPlan, evs: Seq<Event>)
    requires
        accepted(plan, Phase::Opening, evs),
    ensures
        evs.len() <= 4,
        evs.len() == 4 ==> run(plan, evs).0 is Finished,
{
    lemma_calls_left(plan, Phase::Opening, evs);
    if evs.len() == 4 {
        lemma_ends_when_used_up(plan, Phase::Opening, evs);
    }
}

proof fn lemma_ends_when_used_up(plan: MapPlan, phase: Phase, evs: Seq<Event>)
    requires
        accepted(plan, phase, evs),
        evs.len() == calls_left(phase),
    ensures
        run_from(plan, phase, evs).0 is Finished,
    decreases evs.len(),
{
    if evs.len() > 0 {
        let next = transition(plan, phase, evs[0]).0;
        lemma_calls_left(plan, next, evs.drop_first());
        if evs.drop_first().len() == calls_left(next) {
            lemma_ends_when_used_up(plan, next, evs.drop_first());
        }
    }
}

proof fn lemma_same_descriptor(plan: MapPlan, phase: Phase, evs: Seq<Event>, fd: i32)
    requires
        accepted(plan, phase, evs),
        descriptor(phase) == Some(fd) || phase is Finished,
    ensures
        closes_only(run_from(plan, phase, evs).1, fd),
    decreases evs.len(),
{
    if evs.len() > 0 {
        let (next, act) = transition(plan, phase, evs[0]);
        let rest = run_from(plan, next, evs.drop_first()).1;
        lemma_same_descriptor(plan, next, evs.drop_first(), fd);
        let acts = seq![act] + rest;
        assert forall|i: int| 0 <= i < acts.len() && (#[trigger] acts[i]) is Close implies acts[i] == (Action::Close { fd }) by {
            if i > 0 {
                assert(acts[i] == rest[i - 1]);
            }
        }
    }
}

/// The descriptor that is closed is the one that was opened: when the open
/// returned `fd`, every close that the session asks for names `fd`.
pub proof fn lemma_closes_opened_descriptor(plan: MapPlan, evs: Seq<Event>, fd: i32)
    requires
        accepted(plan, Phase::Opening, evs),
        evs.len() > 0,
        evs[0] == Event::Opened(fd),
    ensures
        closes_only(run(plan, evs).1, fd),
{
    let (next, act) = transition(plan, Phase::Opening, evs[0]);
    let rest = run_from(plan, next, evs.drop_first()).1;
    lemma_same_descriptor(plan, next, evs.drop_first(), fd);
    let acts = seq![open_action(plan)] + (seq![act] + rest);
    assert(run(plan, evs).1 == acts);
    assert forall|i: int| 0 <= i < acts.len() && (#[trigger] acts[i]) is Close implies acts[i] == (Action::Close { fd }) by {
        if i > 1 {
            assert(acts[i] == rest[i - 2]);
        }
    }
}

/// Whether `outcome`, when it is a region, is a live mapping of what `plan`
/// asks for.
pub open spec fn live_region(plan: MapPlan, outcome: Result<RegionHandle, MapError>) -> bool {
    outcome matches Ok(h) ==> h.addr != 0 && h.addr != MAP_FAILED && h.len == plan.len && h.writable == plan.write
}

/// Whether every region that `phase` holds or has handed out is live.
pub open spec fn phase_live(plan: MapPlan, phase: Phase) -> bool {
    match phase {
        Phase::Closing { outcome, .. } => live_region(plan, outcome),
        Phase::Finished(outcome) => live_region(plan, outcome),
        _ => true,
    }
}

proof fn lemma_live_preserved(plan: MapPlan, phase: Phase, evs: Seq<Event>)
    requires
        accepted(plan, phase, evs),
        phase_live(plan, phase),
    ensures
        phase_live(plan, run_from(plan, phase, evs).0),
    decreases evs.len(),
{
    if evs.len() > 0 {
        lemma_live_preserved(plan, transition(plan, phase, evs[0]).0, evs.drop_first());
    }
}

/// A region that a session hands out is live: its base is neither null nor
/// the failure value, and it is exactly as long and as writable as the plan
/// asks.
pub proof fn lemma_region_is_live(plan: MapPlan, evs: Seq<Event>)
    requires
        accepted(plan, Phase::Opening, evs),
    ensures
        run(plan, evs).0 matches Phase::Finished(Ok(h)) ==> h.addr != 0 && h.addr != MAP_FAILED
            && h.len == plan.len && h.writable == plan.write,
{
    lemma_live_preserved(plan, Phase::Opening, evs);
}

} // verus!
