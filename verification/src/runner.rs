use crate::command;
use crate::commands::{encode_command, encode_command_spec, lemma_command_payload_len};
use crate::decode::{decode_event, decoded, normalize, normalize_spec};
use crate::frame::{decode_all, spec_encode, DecodeEnd, Frame, FrameDecoder, SpecFrame, HOST_CONTROL};
use crate::session::{
    alerts_spec, apply_event, apply_event_spec, confirmation_query, confirmation_spec,
    cycles_after, identifies_b171, identify_model, is_mutation, is_read_only, next_sequence,
    BatteryAlert, LowBatteryCycles,
};
use crate::text::push_str;
use crate::types::{
    default_snapshot, error_message, same_command, ConnectionState, DeviceCommand, DeviceEvent, DeviceSnapshot,
    ProtocolError, SpecSnapshot,
};
use vstd::prelude::*;

verus! {

/// Milliseconds the session waits for activation, identification and acknowledgements.
pub const COMMAND_TIMEOUT_MS: u64 = 4000;

/// `now` plus the command timeout, saturating.
pub open spec fn deadline_after(now: u64) -> u64 {
    if now > u64::MAX - COMMAND_TIMEOUT_MS {
        u64::MAX
    } else {
        (now + COMMAND_TIMEOUT_MS) as u64
    }
}

fn deadline_exec(now: u64) -> (d: u64)
    ensures
        d == deadline_after(now),
{
    if now > u64::MAX - COMMAND_TIMEOUT_MS {
        u64::MAX
    } else {
        now + COMMAND_TIMEOUT_MS
    }
}

/// The sequence number `k` steps after `s`, wrapping.
pub open spec fn seq_after(s: u8, k: int) -> u8 {
    ((s as int + k) % 256) as u8
}

/// Something the session asks its driver to do, in order.
#[derive(Debug, PartialEq)]
pub enum SessionAction {
    /// Send these bytes to the earbuds.
    Write(Vec<u8>),
    /// Report this event to the user interface.
    Emit(DeviceEvent),
    /// Show a low-battery notification.
    Notify(BatteryAlert),
}

/// Why a session ends.
#[derive(Debug, Clone, PartialEq, Eq)]
pub enum SessionFault {
    Protocol(ProtocolError),
    ActivationTimeout,
}

/// A write that waits for its acknowledgement.
#[derive(Debug)]
pub struct PendingWrite {
    pub command: DeviceCommand,
    pub deadline: u64,
}

/// The state of one control session with the earbuds.
pub struct Session {
    sequence: u8,
    decoder: FrameDecoder,
    snapshot: DeviceSnapshot,
    /// Unacknowledged writes, one slot per value of the one-byte sequence
    /// number: a total map from sequence number to write, whose overdue
    /// entries a tick visits in ascending sequence order.
    pending: Vec<Option<PendingWrite>>,
    supported: bool,
    sync_started: bool,
    activation_deadline: u64,
    identification_deadline: Option<u64>,
    low_battery: LowBatteryCycles,
}

/// A session as a mathematical value.
pub struct SessionView {
    pub sequence: u8,
    pub buffer: Seq<u8>,
    pub snapshot: SpecSnapshot,
    /// Unacknowledged writes by sequence number: the command and its deadline.
    pub pending: Map<u8, (DeviceCommand, u64)>,
    /// The earbuds identified as B171; writes are allowed.
    pub supported: bool,
    pub sync_started: bool,
    pub activation_deadline: u64,
    pub identification_deadline: Option<u64>,
    pub low_battery: LowBatteryCycles,
}

impl View for Session {
    type V = SessionView;

    closed spec fn view(&self) -> SessionView {
        SessionView {
            sequence: self.sequence,
            buffer: self.decoder@,
            snapshot: self.snapshot@,
            pending: Map::new(
                |k: u8| self.pending@[k as int] is Some,
                |k: u8|
                    (
                        self.pending@[k as int]->Some_0.command,
                        self.pending@[k as int]->Some_0.deadline,
                    ),
            ),
            supported: self.supported,
            sync_started: self.sync_started,
            activation_deadline: self.activation_deadline,
            identification_deadline: self.identification_deadline,
            low_battery: self.low_battery,
        }
    }
}

/// `a` writes exactly the encoding of `f`.
pub open spec fn writes(a: SessionAction, f: SpecFrame) -> bool {
    a matches SessionAction::Write(bytes) && bytes@ == spec_encode(f)
}

/// `a` writes the frame of command `c` with sequence number `s`.
pub open spec fn writes_command(a: SessionAction, c: DeviceCommand, s: u8) -> bool {
    encode_command_spec(c, s) matches Ok(f) && writes(a, f)
}

/// `a` reports exactly event `e` (an event that holds only plain values).
pub open spec fn emits(a: SessionAction, e: DeviceEvent) -> bool {
    a == SessionAction::Emit(e)
}

pub const BLOCKED_REASON: &'static str = "Writes are blocked until the device identifies as B171";

pub const TIMEOUT_REASON: &'static str =
    "The earbuds did not acknowledge the change; the previous value was kept";

/// `a` reports that `c` failed, for `reason`.
pub open spec fn fails(a: SessionAction, s: Option<u8>, c: DeviceCommand, reason: Seq<char>) -> bool {
    a matches SessionAction::Emit(DeviceEvent::CommandFailed { sequence, command, reason: r })
        && sequence == s && command == c && r@ == reason
}

proof fn lemma_encodes(c: DeviceCommand, s: u8)
    requires
        is_read_only(c),
    ensures
        encode_command_spec(c, s) is Ok,
{
}

fn write_command(c: &DeviceCommand, s: u8) -> (a: SessionAction)
    requires
        encode_command_spec(*c, s) is Ok,
    ensures
        writes_command(a, *c, s),
{
    proof {
        lemma_command_payload_len(*c);
    }
    match encode_command(c, s) {
        Ok(frame) => match frame.encode() {
            Ok(bytes) => SessionAction::Write(bytes),
            Err(_) => {
                assert(false);
                SessionAction::Write(Vec::new())
            },
        },
        Err(_) => {
            assert(false);
            SessionAction::Write(Vec::new())
        },
    }
}

fn write_raw(id: u16, s: u8) -> (a: SessionAction)
    ensures
        writes(a, SpecFrame { control: HOST_CONTROL, command: id, sequence: s, payload: seq![] }),
{
    match Frame::new(id, s, Vec::new()) {
        Ok(frame) => match frame.encode() {
            Ok(bytes) => SessionAction::Write(bytes),
            Err(_) => SessionAction::Write(Vec::new()),
        },
        Err(_) => SessionAction::Write(Vec::new()),
    }
}

fn reason(text: &str) -> (s: String)
    ensures
        s@ == text@,
{
    let mut s = String::new();
    push_str(&mut s, text);
    s
}

/// Sequence numbers, ascending below `n`, of the writes whose deadline has passed.
pub open spec fn expired_keys(p: Map<u8, (DeviceCommand, u64)>, now: u64, n: int) -> Seq<u8>
    decreases n,
{
    if n <= 0 {
        Seq::empty()
    } else {
        let k = (n - 1) as u8;
        expired_keys(p, now, n - 1) + if p.dom().contains(k) && p[k].1 <= now {
            seq![k]
        } else {
            Seq::empty()
        }
    }
}

/// The writes still waiting after `now`.
pub open spec fn unexpired(p: Map<u8, (DeviceCommand, u64)>, now: u64) -> Map<u8, (DeviceCommand, u64)> {
    Map::new(|k: u8| p.dom().contains(k) && p[k].1 > now, |k: u8| p[k])
}


/// The fourteen queries that read every setting after activation, in order.
pub open spec fn sync_query_spec(i: int) -> DeviceCommand {
    if i == 0 { DeviceCommand::QueryBattery }
    else if i == 1 { DeviceCommand::QueryWear }
    else if i == 2 { DeviceCommand::QueryAnc }
    else if i == 3 { DeviceCommand::QueryEq }
    else if i == 4 { DeviceCommand::QueryCustomEq }
    else if i == 5 { DeviceCommand::QueryAdvancedEqProfile }
    else if i == 6 { DeviceCommand::QueryFirmware }
    else if i == 7 { DeviceCommand::QueryGestures }
    else if i == 8 { DeviceCommand::QueryInEarDetection }
    else if i == 9 { DeviceCommand::QueryLowLag }
    else if i == 10 { DeviceCommand::QueryBassEnhance }
    else if i == 11 { DeviceCommand::QueryAdvancedEq }
    else if i == 12 { DeviceCommand::QueryAudioCodec }
    else { DeviceCommand::QueryDualConnection }
}

fn sync_query(i: usize) -> (c: DeviceCommand)
    requires
        i < 14,
    ensures
        c == sync_query_spec(i as int),
{
    match i {
        0 => DeviceCommand::QueryBattery,
        1 => DeviceCommand::QueryWear,
        2 => DeviceCommand::QueryAnc,
        3 => DeviceCommand::QueryEq,
        4 => DeviceCommand::QueryCustomEq,
        5 => DeviceCommand::QueryAdvancedEqProfile,
        6 => DeviceCommand::QueryFirmware,
        7 => DeviceCommand::QueryGestures,
        8 => DeviceCommand::QueryInEarDetection,
        9 => DeviceCommand::QueryLowLag,
        10 => DeviceCommand::QueryBassEnhance,
        11 => DeviceCommand::QueryAdvancedEq,
        12 => DeviceCommand::QueryAudioCodec,
        _ => DeviceCommand::QueryDualConnection,
    }
}

/// The writes that start synchronisation after sequence number `start`: the
/// remote-configuration query, then the fourteen setting queries.
pub open spec fn sync_writes(acts: Seq<SessionAction>, start: u8) -> bool {
    &&& acts.len() == 15
    &&& writes(
        acts[0],
        SpecFrame {
            control: HOST_CONTROL,
            command: command::QUERY_REMOTE_CONFIG,
            sequence: seq_after(start, 1),
            payload: seq![],
        },
    )
    &&& forall|i: int|
        0 <= i < 14 ==> writes_command(#[trigger] acts[1 + i], sync_query_spec(i), seq_after(start, 2 + i))
}

/// How the session handles a decoded report `ev` from state `m`.
pub open spec fn event_step(m: SessionView, ev: DeviceEvent, n: SessionView, acts: Seq<SessionAction>) -> bool {
    let acked = ev matches DeviceEvent::Acknowledged { sequence: a, .. } && m.pending.dom().contains(a);
    let a = ev->Acknowledged_sequence;
    let cmd = m.pending[a].0;
    let query = if acked { confirmation_spec(cmd) } else { None };
    let m2 = SessionView {
        pending: if acked { m.pending.remove(a) } else { m.pending },
        sequence: if query is Some { seq_after(m.sequence, 1) } else { m.sequence },
        ..m
    };
    let pre: int = (if acked { 1int } else { 0int }) + (if query is Some { 1int } else { 0int });
    let battery = ev matches DeviceEvent::Battery(b);
    let alerts = if battery { alerts_spec(m.low_battery, ev->Battery_0) } else { Seq::empty() };
    &&& n == SessionView {
        snapshot: apply_event_spec(m2.snapshot, ev),
        low_battery: if battery { cycles_after(m.low_battery, ev->Battery_0) } else { m.low_battery },
        ..m2
    }
    &&& acts.len() == pre + alerts.len() + 1
    &&& acked ==> (acts[0] matches SessionAction::Emit(DeviceEvent::CommandConfirmed { sequence, command })
        && sequence == a && command == cmd)
    &&& query matches Some(q) ==> writes_command(acts[1], q, seq_after(m.sequence, 1))
    &&& forall|x: int| pre <= x < pre + alerts.len() ==> #[trigger] acts[x] == SessionAction::Notify(alerts[x - pre])
    &&& acts[acts.len() - 1] == SessionAction::Emit(ev)
}

/// How the session handles a frame other than the protocol-version answer,
/// from state `m` (after any activation step).
pub open spec fn report_step(
    m: SessionView,
    f: SpecFrame,
    n: SessionView,
    acts: Seq<SessionAction>,
    fault: Option<SessionFault>,
) -> bool {
    let id = normalize_spec(f.command);
    if id == command::QUERY_REMOTE_CONFIG {
        &&& fault is None
        &&& if identifies_b171(f.payload) {
            &&& n == SessionView {
                supported: true,
                snapshot: SpecSnapshot {
                    model: Some("B171"@),
                    connection: ConnectionState::Ready,
                    ..m.snapshot
                },
                ..m
            }
            &&& acts.len() == 2
            &&& acts[0] matches SessionAction::Emit(DeviceEvent::Snapshot(x)) && x@ == n.snapshot
            &&& emits(acts[1], DeviceEvent::ConnectionChanged(ConnectionState::Ready))
        } else {
            &&& n == SessionView {
                snapshot: SpecSnapshot { connection: ConnectionState::Unsupported, ..m.snapshot },
                ..m
            }
            &&& acts.len() == 1
            &&& emits(acts[0], DeviceEvent::ConnectionChanged(ConnectionState::Unsupported))
        }
    } else {
        exists|r: Result<Option<DeviceEvent>, ProtocolError>|
            #[trigger] decoded(f, r) && match r {
                Err(e) => fault == Some(SessionFault::Protocol(e)) && n == m && acts.len() == 0,
                Ok(None) => fault is None && n == m && acts.len() == 0,
                Ok(Some(ev)) => fault is None && event_step(m, ev, n, acts),
            }
    }
}

/// How the session handles one frame from the earbuds: the protocol-version
/// answer triggers activation; the first activation acknowledgement starts
/// synchronisation; then the frame is handled as a report.
pub open spec fn frame_step(
    o: SessionView,
    f: SpecFrame,
    now: u64,
    n: SessionView,
    acts: Seq<SessionAction>,
    fault: Option<SessionFault>,
) -> bool {
    let id = normalize_spec(f.command);
    if id == command::QUERY_PROTOCOL {
        &&& fault is None
        &&& n == SessionView { sequence: seq_after(o.sequence, 1), ..o }
        &&& acts.len() == 1
        &&& writes_command(acts[0], DeviceCommand::Activate, seq_after(o.sequence, 1))
    } else {
        let activating = id == command::ACTIVATE && !o.sync_started;
        let m = if activating {
            SessionView {
                sync_started: true,
                identification_deadline: Some(deadline_after(now)),
                snapshot: SpecSnapshot { connection: ConnectionState::Syncing, ..o.snapshot },
                sequence: seq_after(o.sequence, 15),
                ..o
            }
        } else {
            o
        };
        let k: int = if activating { 16 } else { 0 };
        &&& acts.len() >= k
        &&& activating ==> emits(acts[0], DeviceEvent::ConnectionChanged(ConnectionState::Syncing))
        &&& activating ==> sync_writes(acts.subrange(1, 16), o.sequence)
        &&& report_step(m, f, n, acts.skip(k), fault)
    }
}

/// `states`, `bounds` and `k` witness that handling `frames` in order from
/// `states[0]` handled the first `k` frames, frame `i` taking the session from
/// `states[i]` to `states[i + 1]` with actions `acts[bounds[i]..bounds[i + 1]]`;
/// only the last handled frame may end the session, and when none did, every
/// frame was handled.
pub open spec fn trace(
    frames: Seq<SpecFrame>,
    now: u64,
    acts: Seq<SessionAction>,
    fault: Option<SessionFault>,
    states: Seq<SessionView>,
    bounds: Seq<int>,
    k: int,
) -> bool {
    &&& 0 <= k <= frames.len()
    &&& states.len() == k + 1
    &&& bounds.len() == k + 1
    &&& bounds[0] == 0
    &&& bounds[k] == acts.len()
    &&& forall|i: int| 0 <= i < k ==> bounds[i] <= #[trigger] bounds[i + 1]
    &&& forall|i: int|
        0 <= i < k ==> frame_step(
            states[i],
            frames[i],
            now,
            states[i + 1],
            acts.subrange(bounds[i], bounds[i + 1]),
            if i == k - 1 { fault } else { None },
        )
    &&& fault is None ==> k == frames.len()
    &&& fault is Some ==> k >= 1
}

/// Handling `frames` in order from `s0` ends in `s2` with actions `acts`;
/// handling stops at the first frame that ends the session.
pub open spec fn run_ok(
    s0: SessionView,
    frames: Seq<SpecFrame>,
    now: u64,
    s2: SessionView,
    acts: Seq<SessionAction>,
    fault: Option<SessionFault>,
) -> bool {
    exists|states: Seq<SessionView>, bounds: Seq<int>, k: int|
        #[trigger] trace(frames, now, acts, fault, states, bounds, k) && states[0] == s0 && states[k] == s2
}

proof fn lemma_seq_after(s: u8, j: int)
    requires
        0 <= j,
    ensures
        seq_after(seq_after(s, j), 1) == seq_after(s, j + 1),
{
}

/// The view of a freshly started session.
pub open spec fn started(v: SessionView, now: u64) -> bool {
    &&& v.sequence == 1
    &&& v.buffer == Seq::<u8>::empty()
    &&& v.snapshot == SpecSnapshot { connection: ConnectionState::Activating, ..default_snapshot() }
    &&& v.pending == Map::<u8, (DeviceCommand, u64)>::empty()
    &&& !v.supported
    &&& !v.sync_started
    &&& v.activation_deadline == deadline_after(now)
    &&& v.identification_deadline is None
    &&& v.low_battery == LowBatteryCycles { left: false, right: false, case: false }
}

/// How the session answers a periodic tick at `now`.
pub open spec fn tick_step(
    o: SessionView,
    now: u64,
    n: SessionView,
    acts: Seq<SessionAction>,
    fault: Option<SessionFault>,
) -> bool {
    if !o.sync_started && now >= o.activation_deadline {
        &&& n == o
        &&& acts.len() == 0
        &&& fault == Some(SessionFault::ActivationTimeout)
    } else {
        let unsupported = !o.supported && (o.identification_deadline matches Some(d) && d
            <= now);
        let first: int = if unsupported { 1 } else { 0 };
        let keys = expired_keys(o.pending, now, 256);
        &&& fault is None
        &&& n == SessionView {
            snapshot: if unsupported {
                SpecSnapshot { connection: ConnectionState::Unsupported, ..o.snapshot }
            } else {
                o.snapshot
            },
            identification_deadline: if unsupported {
                None
            } else {
                o.identification_deadline
            },
            pending: unexpired(o.pending, now),
            ..o
        }
        &&& acts.len() == first + keys.len()
        &&& unsupported ==> emits(acts[0], DeviceEvent::ConnectionChanged(ConnectionState::Unsupported))
        &&& forall|x: int|
            first <= x < acts.len() ==> fails(
                #[trigger] acts[x],
                Some(keys[x - first]),
                o.pending[keys[x - first]].0,
                TIMEOUT_REASON@,
            )
    }
}

/// How the session answers a command from the user interface at `now`.
pub open spec fn command_step(
    o: SessionView,
    command_value: DeviceCommand,
    now: u64,
    n: SessionView,
    acts: Seq<SessionAction>,
) -> bool {
    let s = seq_after(o.sequence, 1);
    if !is_read_only(command_value) && !o.supported {
        &&& n == o
        &&& acts.len() == 1
        &&& fails(acts[0], None, command_value, BLOCKED_REASON@)
    } else {
        match encode_command_spec(command_value, s) {
            Ok(f) => {
                &&& n == SessionView {
                    sequence: s,
                    pending: if is_read_only(command_value) {
                        o.pending
                    } else {
                        o.pending.insert(s, (command_value, deadline_after(now)))
                    },
                    ..o
                }
                &&& acts.len() == if is_read_only(command_value) { 1int } else { 2int }
                &&& writes(acts[0], f)
                &&& !is_read_only(command_value) ==> (acts[1] matches SessionAction::Emit(
                    DeviceEvent::CommandStarted { sequence, command },
                ) && sequence == s && same_command(command, command_value))
            },
            Err(e) => {
                &&& n == SessionView { sequence: s, ..o }
                &&& acts.len() == 1
                &&& fails(acts[0], None, command_value, error_message(e))
            },
        }
    }
}

/// How the session answers bytes read from the earbuds at `now`.
pub open spec fn bytes_step(
    o: SessionView,
    bytes: Seq<u8>,
    now: u64,
    n: SessionView,
    acts: Seq<SessionAction>,
    fault: Option<SessionFault>,
) -> bool {
    let (frames, end) = decode_all(o.buffer + bytes);
    match end {
        DecodeEnd::Failed(e, rest) => {
            &&& acts.len() == 0
            &&& fault == Some(SessionFault::Protocol(e))
            &&& n == (SessionView { buffer: rest, ..o })
        },
        DecodeEnd::Done(rest) => run_ok(
            SessionView { buffer: rest, ..o },
            frames,
            now,
            n,
            acts,
            fault,
        ),
    }
}

impl Session {
    /// Well-formedness: one pending slot per sequence number.
    pub closed spec fn wf(&self) -> bool {
        self.pending@.len() == 256
    }

    /// Opens a session: reports activation and asks for the protocol version.
    pub fn start(now: u64) -> (r: (Session, Vec<SessionAction>))
        ensures
            r.0.wf(),
            started(r.0@, now),
            r.1@.len() == 2,
            emits(r.1@[0], DeviceEvent::ConnectionChanged(ConnectionState::Activating)),
            writes(
                r.1@[1],
                SpecFrame {
                    control: HOST_CONTROL,
                    command: command::QUERY_PROTOCOL,
                    sequence: 1,
                    payload: seq![],
                },
            ),
    {
        let mut pending: Vec<Option<PendingWrite>> = Vec::new();
        let mut i: usize = 0;
        while i < 256
            invariant
                i <= 256,
                pending@.len() == i,
                forall|j: int| 0 <= j < i ==> pending@[j] is None,
            decreases 256 - i,
        {
            pending.push(None);
            i = i + 1;
        }
        let mut snapshot = DeviceSnapshot::default();
        snapshot.connection = ConnectionState::Activating;
        let session = Session {
            sequence: 1,
            decoder: FrameDecoder::new(),
            snapshot,
            pending,
            supported: false,
            sync_started: false,
            activation_deadline: deadline_exec(now),
            identification_deadline: None,
            low_battery: LowBatteryCycles { left: false, right: false, case: false },
        };
        assert(session@.pending =~= Map::<u8, (DeviceCommand, u64)>::empty());
        let mut actions: Vec<SessionAction> = Vec::new();
        actions.push(SessionAction::Emit(DeviceEvent::ConnectionChanged(ConnectionState::Activating)));
        actions.push(write_raw(command::QUERY_PROTOCOL, 1));
        (session, actions)
    }

    /// Periodic check: fails the session when activation never answered, marks
    /// the earbuds unsupported when they did not identify in time, and fails
    /// every write whose acknowledgement is overdue, in sequence order.
    pub fn on_tick(&mut self, now: u64) -> (r: (Vec<SessionAction>, Option<SessionFault>))
        requires
            old(self).wf(),
        ensures
            final(self).wf(),
            tick_step(old(self)@, now, final(self)@, r.0@, r.1),
    {
        let ghost o = self@;
        let mut actions: Vec<SessionAction> = Vec::new();
        if !self.sync_started && now >= self.activation_deadline {
            return (actions, Some(SessionFault::ActivationTimeout));
        }
        let unsupported = !self.supported && match self.identification_deadline {
            Some(d) => d <= now,
            None => false,
        };
        if unsupported {
            self.snapshot.connection = ConnectionState::Unsupported;
            self.identification_deadline = None;
            actions.push(SessionAction::Emit(DeviceEvent::ConnectionChanged(ConnectionState::Unsupported)));
        }
        let ghost first: int = if unsupported { 1 } else { 0 };
        let ghost mid = self@;
        let ghost start_slots = self.pending@;
        assert(forall|j: int| 0 <= j < 256 ==> (#[trigger] start_slots[j] is Some <==> o.pending.dom().contains(j as u8)));
        let mut k: usize = 0;
        while k < 256
            invariant
                k <= 256,
                self.pending@.len() == 256,
                mid.pending == o.pending,
                first == actions@.len() - expired_keys(o.pending, now, k as int).len(),
                0 <= first <= 1,
                first == 1 ==> emits(actions@[0], DeviceEvent::ConnectionChanged(ConnectionState::Unsupported)),
                forall|i: int|
                    0 <= i < expired_keys(o.pending, now, k as int).len() ==> fails(
                        #[trigger] actions@[first + i],
                        Some(expired_keys(o.pending, now, k as int)[i]),
                        o.pending[expired_keys(o.pending, now, k as int)[i]].0,
                        TIMEOUT_REASON@,
                    ),
                forall|j: int|
                    0 <= j < k ==> (#[trigger] self.pending@[j] is Some <==> (o.pending.dom().contains(
                        j as u8,
                    ) && o.pending[j as u8].1 > now)),
                forall|j: int|
                    0 <= j < k && self.pending@[j] is Some ==> (self.pending@[j]->Some_0.command,
                    self.pending@[j]->Some_0.deadline) == o.pending[j as u8],
                start_slots.len() == 256,
                self@ == (SessionView { pending: self@.pending, ..mid }),
                forall|j: int| 0 <= j < 256 ==> (#[trigger] start_slots[j] is Some <==> o.pending.dom().contains(j as u8)),
                forall|j: int| 0 <= j < 256 && start_slots[j] is Some ==> (#[trigger] start_slots[j]->Some_0.command,
                    start_slots[j]->Some_0.deadline) == o.pending[j as u8],
                forall|j: int| k <= j < 256 ==> #[trigger] self.pending@[j] == start_slots[j],
            decreases 256 - k,
        {
            let expired = match &self.pending[k] {
                Some(w) => w.deadline <= now,
                None => false,
            };
            if expired {
                let taken = self.pending.remove(k);
                self.pending.insert(k, None);
                match taken {
                    Some(w) => {
                        actions.push(
                            SessionAction::Emit(
                                DeviceEvent::CommandFailed {
                                    sequence: Some(k as u8),
                                    command: w.command,
                                    reason: reason(TIMEOUT_REASON),
                                },
                            ),
                        );
                    },
                    None => {},
                }
            }
            k = k + 1;
        }
        assert forall|x: int| first <= x < actions@.len() implies fails(
            #[trigger] actions@[x],
            Some(expired_keys(o.pending, now, 256)[x - first]),
            o.pending[expired_keys(o.pending, now, 256)[x - first]].0,
            TIMEOUT_REASON@,
        ) by {
            assert(actions@[first + (x - first)] == actions@[x]);
        }
        assert(self@.pending =~= unexpired(o.pending, now)) by {
            assert forall|key: u8| #[trigger] self@.pending.dom().contains(key) implies self@.pending[key]
                == unexpired(o.pending, now)[key] by {
                assert(self.pending@[key as int] is Some);
            }
        }
        (actions, None)
    }

    /// The synchronisation writes; advances the sequence number by 15.
    fn sync_query_writes(&mut self) -> (acts: Vec<SessionAction>)
        ensures
            final(self)@ == (SessionView { sequence: seq_after(old(self)@.sequence, 15), ..old(self)@ }),
            final(self).pending@ == old(self).pending@,
            sync_writes(acts@, old(self)@.sequence),
    {
        let ghost o = self@;
        let mut acts: Vec<SessionAction> = Vec::new();
        let s = next_sequence(&mut self.sequence);
        acts.push(write_raw(command::QUERY_REMOTE_CONFIG, s));
        let mut i: usize = 0;
        while i < 14
            invariant
                i <= 14,
                self@ == (SessionView { sequence: seq_after(o.sequence, 1 + i), ..o }),
                self.pending@ == old(self).pending@,
                acts@.len() == 1 + i,
                writes(
                    acts@[0],
                    SpecFrame {
                        control: HOST_CONTROL,
                        command: command::QUERY_REMOTE_CONFIG,
                        sequence: seq_after(o.sequence, 1),
                        payload: seq![],
                    },
                ),
                forall|j: int|
                    0 <= j < i ==> writes_command(
                        #[trigger] acts@[1 + j],
                        sync_query_spec(j),
                        seq_after(o.sequence, 2 + j),
                    ),
            decreases 14 - i,
        {
            let q = sync_query(i);
            proof {
                lemma_encodes(q, seq_after(self.sequence, 1));
                lemma_seq_after(o.sequence, 1 + i);
            }
            let s = next_sequence(&mut self.sequence);
            acts.push(write_command(&q, s));
            i = i + 1;
        }
        acts
    }

    /// Handles one frame from the earbuds, as `frame_step` describes.
    #[verifier::rlimit(80)]
    #[verifier::spinoff_prover]
    pub fn on_frame(&mut self, frame: &Frame, now: u64) -> (r: (Vec<SessionAction>, Option<SessionFault>))
        requires
            old(self).wf(),
        ensures
            final(self).wf(),
            frame_step(old(self)@, frame@, now, final(self)@, r.0@, r.1),
    {
        let ghost o = self@;
        let id = normalize(frame.command);
        let mut actions: Vec<SessionAction> = Vec::new();
        if id == command::QUERY_PROTOCOL {
            proof {
                lemma_encodes(DeviceCommand::Activate, seq_after(self.sequence, 1));
            }
            let s = next_sequence(&mut self.sequence);
            actions.push(write_command(&DeviceCommand::Activate, s));
            return (actions, None);
        }
        let activating = id == command::ACTIVATE && !self.sync_started;
        if activating {
            self.sync_started = true;
            self.identification_deadline = Some(deadline_exec(now));
            self.snapshot.connection = ConnectionState::Syncing;
            actions.push(SessionAction::Emit(DeviceEvent::ConnectionChanged(ConnectionState::Syncing)));
            let mut sync = self.sync_query_writes();
            let ghost first = actions@;
            let ghost sw = sync@;
            actions.append(&mut sync);
            assert(actions@.subrange(1, 16) =~= sw);
        }
        let ghost m = self@;
        let ghost k: int = if activating { 16 } else { 0 };
        assert(actions@.len() == k);
        let (rest, fault) = self.report(frame, id);
        proof {
            let all = actions@ + rest@;
            assert(all.skip(k) =~= rest@);
            if activating {
                assert(all.subrange(1, 16) =~= actions@.subrange(1, 16));
                assert(all[0] == actions@[0]);
            }
        }
        let mut rest = rest;
        actions.append(&mut rest);
        (actions, fault)
    }

    /// Handles a frame as a report, as `report_step` describes.
    fn report(&mut self, frame: &Frame, id: u16) -> (r: (Vec<SessionAction>, Option<SessionFault>))
        requires
            old(self).wf(),
            id == normalize_spec(frame.command),
        ensures
            final(self).wf(),
            report_step(old(self)@, frame@, final(self)@, r.0@, r.1),
    {
        let mut actions: Vec<SessionAction> = Vec::new();
        if id == command::QUERY_REMOTE_CONFIG {
            match identify_model(frame.payload.as_slice()) {
                Some(model) => {
                    self.supported = true;
                    self.snapshot.model = Some(model);
                    self.snapshot.connection = ConnectionState::Ready;
                    actions.push(SessionAction::Emit(DeviceEvent::Snapshot(self.snapshot.copy())));
                    actions.push(SessionAction::Emit(DeviceEvent::ConnectionChanged(ConnectionState::Ready)));
                },
                None => {
                    self.snapshot.connection = ConnectionState::Unsupported;
                    actions.push(
                        SessionAction::Emit(DeviceEvent::ConnectionChanged(ConnectionState::Unsupported)),
                    );
                },
            }
            return (actions, None);
        }
        let decoded_event = decode_event(frame);
        let ghost r = decoded_event;
        match decoded_event {
            Err(e) => {
                assert(decoded(frame@, r));
                (actions, Some(SessionFault::Protocol(e)))
            },
            Ok(None) => {
                assert(decoded(frame@, r));
                (actions, None)
            },
            Ok(Some(event)) => {
                let actions = self.handle_event(event);
                assert(decoded(frame@, r));
                (actions, None)
            },
        }
    }

    /// Handles a decoded report, as `event_step` describes.
    fn handle_event(&mut self, event: DeviceEvent) -> (actions: Vec<SessionAction>)
        requires
            old(self).wf(),
        ensures
            final(self).wf(),
            event_step(old(self)@, event, final(self)@, actions@),
    {
        let ghost o = self@;
        let mut actions: Vec<SessionAction> = Vec::new();
        let ack = match &event {
            DeviceEvent::Acknowledged { sequence, .. } => Some(*sequence),
            _ => None,
        };
        match ack {
            Some(a) => {
                if self.pending[a as usize].is_some() {
                    let ghost before = self.pending@;
                    let taken = self.pending.remove(a as usize);
                    self.pending.insert(a as usize, None);
                    assert(self@.pending =~= o.pending.remove(a)) by {
                        assert forall|k: int| 0 <= k < 256 && k != a implies self.pending@[k] == before[k] by {}
                    }
                    match taken {
                        Some(w) => {
                            let query = confirmation_query(&w.command);
                            actions.push(
                                SessionAction::Emit(
                                    DeviceEvent::CommandConfirmed { sequence: a, command: w.command },
                                ),
                            );
                            match query {
                                Some(q) => {
                                    proof {
                                        lemma_encodes(q, seq_after(self.sequence, 1));
                                    }
                                    let s = next_sequence(&mut self.sequence);
                                    actions.push(write_command(&q, s));
                                },
                                None => {},
                            }
                        },
                        None => {},
                    }
                }
            },
            None => {},
        }
        let ghost pre = actions@.len() as int;
        apply_event(&mut self.snapshot, &event);
        match &event {
            DeviceEvent::Battery(b) => {
                let alerts = self.low_battery.update(b);
                let ghost prefix = actions@;
                let ghost after = self@;
                let mut i: usize = 0;
                while i < alerts.len()
                    invariant
                        i <= alerts@.len(),
                        actions@.len() == pre + i,
                        prefix.len() == pre,
                        self@ == after,
                        self.wf(),
                        forall|j: int| 0 <= j < pre ==> actions@[j] == prefix[j],
                        forall|j: int| 0 <= j < i ==> #[trigger] actions@[pre + j] == SessionAction::Notify(alerts@[j]),
                    decreases alerts@.len() - i,
                {
                    actions.push(SessionAction::Notify(alerts[i]));
                    i = i + 1;
                }
                assert forall|x: int| pre <= x < pre + alerts@.len() implies #[trigger] actions@[x]
                    == SessionAction::Notify(alerts@[x - pre]) by {
                    assert(actions@[pre + (x - pre)] == SessionAction::Notify(alerts@[x - pre]));
                }
            },
            _ => {},
        }
        actions.push(SessionAction::Emit(event));
        actions
    }

    /// Handles bytes read from the earbuds: drains every complete frame and
    /// handles them in order; a framing error ends the session before any of
    /// them is handled.
    pub fn on_bytes(&mut self, bytes: &[u8], now: u64) -> (r: (Vec<SessionAction>, Option<SessionFault>))
        requires
            old(self).wf(),
        ensures
            final(self).wf(),
            bytes_step(old(self)@, bytes@, now, final(self)@, r.0@, r.1),
    {
        let pushed = self.decoder.push(bytes);
        match pushed {
            Err(e) => (Vec::new(), Some(SessionFault::Protocol(e))),
            Ok(frames) => {
                let ghost s0 = self@;
                let ghost fs = frames.deep_view();
                let mut actions: Vec<SessionAction> = Vec::new();
                let ghost mut states: Seq<SessionView> = seq![s0];
                let ghost mut bounds: Seq<int> = seq![0int];
                let mut i: usize = 0;
                while i < frames.len()
                    invariant
                        i <= frames@.len(),
                        fs == frames.deep_view(),
                        decode_all(old(self)@.buffer + bytes@).0 == fs,
                        decode_all(old(self)@.buffer + bytes@).1 == DecodeEnd::Done(s0.buffer),
                        s0 == (SessionView { buffer: s0.buffer, ..old(self)@ }),
                        self.wf(),
                        states.len() == i + 1,
                        bounds.len() == i + 1,
                        bounds[0] == 0,
                        bounds[i as int] == actions@.len(),
                        states[0] == s0,
                        states[i as int] == self@,
                        forall|j: int| 0 <= j < i ==> bounds[j] <= #[trigger] bounds[j + 1],
                        forall|j: int| 0 <= j <= i ==> 0 <= #[trigger] bounds[j] <= actions@.len(),
                        forall|j: int|
                            0 <= j < i ==> frame_step(
                                states[j],
                                fs[j],
                                now,
                                states[j + 1],
                                actions@.subrange(bounds[j], bounds[j + 1]),
                                None,
                            ),
                    decreases frames@.len() - i,
                {
                    assert(fs[i as int] == frames@[i as int]@);
                    let (acts, fault) = self.on_frame(&frames[i], now);
                    let ghost prev = actions@;
                    let ghost added = acts@;
                    let mut acts = acts;
                    actions.append(&mut acts);
                    proof {
                        assert forall|j: int| 0 <= j < i implies #[trigger] actions@.subrange(bounds[j], bounds[j + 1])
                            == prev.subrange(bounds[j], bounds[j + 1]) by {
                            assert(actions@.subrange(bounds[j], bounds[j + 1]) =~= prev.subrange(
                                bounds[j],
                                bounds[j + 1],
                            ));
                        }
                        assert(actions@.subrange(prev.len() as int, actions@.len() as int) =~= added);
                        states = states.push(self@);
                        bounds = bounds.push(actions@.len() as int);
                    }
                    if fault.is_some() {
                        assert(trace(fs, now, actions@, fault, states, bounds, i + 1));
                        return (actions, fault);
                    }
                    i = i + 1;
                }
                assert(trace(fs, now, actions@, None, states, bounds, i as int));
                (actions, None)
            },
        }
    }

    /// The state the session has confirmed so far.
    pub fn snapshot(&self) -> (s: &DeviceSnapshot)
        ensures
            s@ == self@.snapshot,
    {
        &self.snapshot
    }

    /// The transport closed: the earbuds are disconnected.
    pub fn on_closed(&self) -> (actions: Vec<SessionAction>)
        ensures
            actions@.len() == 1,
            emits(actions@[0], DeviceEvent::ConnectionChanged(ConnectionState::Disconnected)),
    {
        let mut actions: Vec<SessionAction> = Vec::new();
        actions.push(SessionAction::Emit(DeviceEvent::ConnectionChanged(ConnectionState::Disconnected)));
        actions
    }

    /// Handles a command from the user interface. Writes are refused until the
    /// earbuds identify as B171; a sent write waits for its acknowledgement.
    pub fn on_command(&mut self, command_value: DeviceCommand, now: u64) -> (actions: Vec<SessionAction>)
        requires
            old(self).wf(),
        ensures
            final(self).wf(),
            command_step(old(self)@, command_value, now, final(self)@, actions@),
    {
        let mut actions: Vec<SessionAction> = Vec::new();
        let mutation = is_mutation(&command_value);
        if mutation && !self.supported {
            actions.push(
                SessionAction::Emit(
                    DeviceEvent::CommandFailed {
                        sequence: None,
                        command: command_value,
                        reason: reason(BLOCKED_REASON),
                    },
                ),
            );
            return actions;
        }
        let ghost o = self@;
        let s = next_sequence(&mut self.sequence);
        match encode_command(&command_value, s) {
            Ok(frame) => {
                proof {
                    lemma_command_payload_len(command_value);
                }
                match frame.encode() {
                    Ok(bytes) => actions.push(SessionAction::Write(bytes)),
                    Err(_) => {
                        assert(false);
                    },
                }
                if mutation {
                    let started = command_value.clone_command();
                    let ghost before = self.pending@;
                    self.pending.set(
                        s as usize,
                        Some(PendingWrite { command: command_value, deadline: deadline_exec(now) }),
                    );
                    proof {
                        assert forall|k: int| 0 <= k < 256 && k != s implies self.pending@[k] == before[k] by {
                        }
                    }
                    assert(self@.pending =~= o.pending.insert(s, (command_value, deadline_after(now))));
                    actions.push(
                        SessionAction::Emit(
                            DeviceEvent::CommandStarted {
                                sequence: s,
                                command: started,
                            },
                        ),
                    );
                }
            },
            Err(e) => {
                actions.push(
                    SessionAction::Emit(
                        DeviceEvent::CommandFailed {
                            sequence: None,
                            command: command_value,
                            reason: e.message(),
                        },
                    ),
                );
            },
        }
        actions
    }
}

// ---------------------------------------------------------------------- laws

/// Writes are unlocked only by the earbuds identifying as B171: a frame that
/// turns a session supported is a remote-configuration answer that carries
/// a B171 serial.
pub proof fn law_writes_unlock_only_on_b171_identity(
    o: SessionView,
    f: SpecFrame,
    now: u64,
    n: SessionView,
    acts: Seq<SessionAction>,
    fault: Option<SessionFault>,
)
    requires
        frame_step(o, f, now, n, acts, fault),
        !o.supported,
        n.supported,
    ensures
        normalize_spec(f.command) == command::QUERY_REMOTE_CONFIG,
        identifies_b171(f.payload),
{
    let id = normalize_spec(f.command);
    if id != command::QUERY_PROTOCOL && id != command::QUERY_REMOTE_CONFIG {
        let activating = id == command::ACTIVATE && !o.sync_started;
        let m = if activating {
            SessionView {
                sync_started: true,
                identification_deadline: Some(deadline_after(now)),
                snapshot: SpecSnapshot { connection: ConnectionState::Syncing, ..o.snapshot },
                sequence: seq_after(o.sequence, 15),
                ..o
            }
        } else {
            o
        };
        let k: int = if activating { 16 } else { 0 };
        assert(report_step(m, f, n, acts.skip(k), fault));
        let r = choose|r: Result<Option<DeviceEvent>, ProtocolError>|
            #[trigger] decoded(f, r) && match r {
                Err(e) => fault == Some(SessionFault::Protocol(e)) && n == m && acts.skip(k).len() == 0,
                Ok(None) => fault is None && n == m && acts.skip(k).len() == 0,
                Ok(Some(ev)) => fault is None && event_step(m, ev, n, acts.skip(k)),
            };
        assert(n.supported == m.supported);
    }
}

/// Every write is eventually settled in time: after a tick that does not end
/// the session, no write still waits past its deadline.
pub proof fn law_no_write_waits_past_its_deadline(p: Map<u8, (DeviceCommand, u64)>, now: u64)
    ensures
        forall|k: u8| #[trigger] unexpired(p, now).dom().contains(k) ==> unexpired(p, now)[k].1 > now,
        forall|k: u8|
            #[trigger] unexpired(p, now).dom().contains(k) ==> p.dom().contains(k) && unexpired(
                p,
                now,
            )[k] == p[k],
{
}

/// A tick reports exactly the overdue writes, each once, in sequence order.
pub proof fn law_tick_fails_exactly_the_overdue_writes(p: Map<u8, (DeviceCommand, u64)>, now: u64)
    ensures
        forall|k: u8|
            #[trigger] expired_keys(p, now, 256).contains(k) <==> (p.dom().contains(k) && p[k].1
                <= now),
        forall|i: int, j: int|
            0 <= i < j < expired_keys(p, now, 256).len() ==> expired_keys(p, now, 256)[i]
                < expired_keys(p, now, 256)[j],
{
    lemma_expired_keys(p, now, 256);
}

pub(crate) proof fn lemma_expired_keys(p: Map<u8, (DeviceCommand, u64)>, now: u64, n: int)
    requires
        0 <= n <= 256,
    ensures
        forall|k: u8|
            #[trigger] expired_keys(p, now, n).contains(k) <==> (k < n && p.dom().contains(k) && p[k].1
                <= now),
        forall|i: int| 0 <= i < expired_keys(p, now, n).len() ==> #[trigger] expired_keys(p, now, n)[i] < n,
        forall|i: int, j: int|
            0 <= i < j < expired_keys(p, now, n).len() ==> expired_keys(p, now, n)[i]
                < expired_keys(p, now, n)[j],
    decreases n,
{
    if n > 0 {
        lemma_expired_keys(p, now, n - 1);
        let prev = expired_keys(p, now, n - 1);
        let k = (n - 1) as u8;
        let tail = if p.dom().contains(k) && p[k].1 <= now {
            seq![k]
        } else {
            Seq::<u8>::empty()
        };
        let all = expired_keys(p, now, n);
        assert(all == prev + tail);
        assert forall|x: u8| #[trigger] all.contains(x) <==> (x < n && p.dom().contains(x) && p[x].1
            <= now) by {
            if all.contains(x) {
                let i = choose|i: int| 0 <= i < all.len() && all[i] == x;
                if i < prev.len() {
                    assert(prev[i] == x);
                    assert(prev.contains(x));
                } else {
                    assert(tail[i - prev.len()] == x);
                }
            }
            if x < n && p.dom().contains(x) && p[x].1 <= now {
                if x < n - 1 {
                    assert(prev.contains(x));
                    let i = choose|i: int| 0 <= i < prev.len() && prev[i] == x;
                    assert(all[i] == x);
                } else {
                    assert(x == k);
                    assert(all[prev.len() as int] == x);
                }
            }
        }
        assert forall|i: int| 0 <= i < all.len() implies #[trigger] all[i] < n by {
            if i < prev.len() {
                assert(all[i] == prev[i]);
            }
        }
        assert forall|i: int, j: int| 0 <= i < j < all.len() implies all[i] < all[j] by {
            if j < prev.len() {
                assert(all[i] == prev[i] && all[j] == prev[j]);
            } else {
                assert(all[j] == k);
                assert(all[i] == prev[i]);
            }
        }
    }
}

proof fn lemma_first_unlock(states: Seq<SessionView>, n: int) -> (j: int)
    requires
        0 < n < states.len(),
        !states[0].supported,
        states[n].supported,
    ensures
        0 <= j < n,
        !states[j].supported,
        states[j + 1].supported,
    decreases n,
{
    if !states[n - 1].supported {
        n - 1
    } else {
        lemma_first_unlock(states, n - 1)
    }
}

/// Over any run of frames, a session that was not allowed to write becomes so
/// only through a frame that identifies the earbuds as B171.
pub proof fn law_run_unlocks_only_on_b171_identity(
    s0: SessionView,
    frames: Seq<SpecFrame>,
    now: u64,
    s2: SessionView,
    acts: Seq<SessionAction>,
    fault: Option<SessionFault>,
)
    requires
        run_ok(s0, frames, now, s2, acts, fault),
        !s0.supported,
        s2.supported,
    ensures
        exists|i: int|
            0 <= i < frames.len() && normalize_spec(#[trigger] frames[i].command)
                == command::QUERY_REMOTE_CONFIG && identifies_b171(frames[i].payload),
{
    let (states, bounds, k) = choose|states: Seq<SessionView>, bounds: Seq<int>, k: int|
        #[trigger] trace(frames, now, acts, fault, states, bounds, k) && states[0] == s0 && states[k]
            == s2;
    assert(k > 0);
    let j = lemma_first_unlock(states, k);
    assert(frame_step(
        states[j],
        frames[j],
        now,
        states[j + 1],
        acts.subrange(bounds[j], bounds[j + 1]),
        if j == k - 1 { fault } else { None },
    ));
    law_writes_unlock_only_on_b171_identity(
        states[j],
        frames[j],
        now,
        states[j + 1],
        acts.subrange(bounds[j], bounds[j + 1]),
        if j == k - 1 { fault } else { None },
    );
    assert(normalize_spec(frames[j].command) == command::QUERY_REMOTE_CONFIG);
}

/// Synchronisation reads every setting once: the fourteen queries after
/// activation are all the queries there are, none twice.
pub proof fn law_sync_reads_every_setting(q: DeviceCommand)
    ensures
        is_read_only(q) && !(q is Activate) ==> exists|i: int| 0 <= i < 14 && #[trigger] sync_query_spec(i) == q,
        forall|i: int| 0 <= i < 14 ==> is_read_only(#[trigger] sync_query_spec(i)) && !(sync_query_spec(i) is Activate),
        forall|i: int, j: int| 0 <= i < j < 14 ==> #[trigger] sync_query_spec(i) != #[trigger] sync_query_spec(j),
{
    match q {
        DeviceCommand::QueryBattery => assert(sync_query_spec(0) == q),
        DeviceCommand::QueryWear => assert(sync_query_spec(1) == q),
        DeviceCommand::QueryAnc => assert(sync_query_spec(2) == q),
        DeviceCommand::QueryEq => assert(sync_query_spec(3) == q),
        DeviceCommand::QueryCustomEq => assert(sync_query_spec(4) == q),
        DeviceCommand::QueryAdvancedEqProfile => assert(sync_query_spec(5) == q),
        DeviceCommand::QueryFirmware => assert(sync_query_spec(6) == q),
        DeviceCommand::QueryGestures => assert(sync_query_spec(7) == q),
        DeviceCommand::QueryInEarDetection => assert(sync_query_spec(8) == q),
        DeviceCommand::QueryLowLag => assert(sync_query_spec(9) == q),
        DeviceCommand::QueryBassEnhance => assert(sync_query_spec(10) == q),
        DeviceCommand::QueryAdvancedEq => assert(sync_query_spec(11) == q),
        DeviceCommand::QueryAudioCodec => assert(sync_query_spec(12) == q),
        DeviceCommand::QueryDualConnection => assert(sync_query_spec(13) == q),
        _ => {},
    }
}

} // verus!
