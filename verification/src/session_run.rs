//! Properties of whole session runs: sequences of byte reads, user commands
//! and timer ticks, each handled by the matching `Session` method.
use crate::command;
use crate::decode::{decoded, normalize_spec};
use crate::frame::{decode_all, DecodeEnd, SpecFrame};
use crate::runner::{
    bytes_step, command_step, deadline_after, event_step, expired_keys, fails, frame_step, sync_query_spec,
    lemma_expired_keys, law_run_unlocks_only_on_b171_identity, report_step, run_ok, seq_after,
    tick_step, trace, unexpired, writes_command, SessionAction, SessionFault, SessionView,
    BLOCKED_REASON, TIMEOUT_REASON,
};
use crate::session::{alerts_spec, confirmation_spec, identifies_b171, is_read_only};
use crate::commands::encode_command_spec;
use crate::types::{ConnectionState, DeviceCommand, DeviceEvent, ProtocolError, SpecSnapshot};
use vstd::prelude::*;

verus! {

/// One thing that reaches a running session.
pub enum SessionInput {
    /// Bytes read from the earbuds (`Session::on_bytes`).
    Bytes(Seq<u8>),
    /// A command from the user interface (`Session::on_command`).
    Command(DeviceCommand),
    /// The periodic timer (`Session::on_tick`).
    Tick,
}

/// How the session answers `input`, arriving at `now`, in state `o`.
pub open spec fn input_step(
    o: SessionView,
    input: SessionInput,
    now: u64,
    n: SessionView,
    acts: Seq<SessionAction>,
    fault: Option<SessionFault>,
) -> bool {
    match input {
        SessionInput::Bytes(b) => bytes_step(o, b, now, n, acts, fault),
        SessionInput::Command(c) => fault is None && command_step(o, c, now, n, acts),
        SessionInput::Tick => tick_step(o, now, n, acts, fault),
    }
}

/// `states` and `acts` witness a run over `inputs`, each paired with the time
/// it arrived: input `i` takes the session from `states[i]` to
/// `states[i + 1]` with actions `acts[i]`, and none ends the session.
pub open spec fn session_run(
    inputs: Seq<(SessionInput, u64)>,
    states: Seq<SessionView>,
    acts: Seq<Seq<SessionAction>>,
) -> bool {
    &&& states.len() == inputs.len() + 1
    &&& acts.len() == inputs.len()
    &&& forall|i: int|
        #![trigger inputs[i]]
        0 <= i < inputs.len() ==> input_step(states[i], inputs[i].0, inputs[i].1, states[i + 1], acts[i], None)
}

/// The frames that `input` hands to a session whose buffer holds `o.buffer`.
pub open spec fn frames_read(o: SessionView, input: SessionInput) -> Seq<SpecFrame> {
    match input {
        SessionInput::Bytes(b) => decode_all(o.buffer + b).0,
        _ => Seq::empty(),
    }
}

/// `f` is a remote-configuration answer that identifies the earbuds as B171.
pub open spec fn identifies(f: SpecFrame) -> bool {
    normalize_spec(f.command) == command::QUERY_REMOTE_CONFIG && identifies_b171(f.payload)
}

/// Some frame of `input` identifies the earbuds as B171.
pub open spec fn brings_identity(o: SessionView, input: SessionInput) -> bool {
    exists|i: int| 0 <= i < frames_read(o, input).len() && identifies(#[trigger] frames_read(o, input)[i])
}

/// `f` decodes to the acknowledgement of write `s`.
pub open spec fn acknowledges(f: SpecFrame, s: u8) -> bool {
    exists|ev: DeviceEvent|
        #[trigger] decoded(f, Ok(Some(ev))) && ev is Acknowledged && ev->Acknowledged_sequence == s
}

/// Some frame of `input` acknowledges write `s`.
pub open spec fn acknowledged_in(o: SessionView, input: SessionInput, s: u8) -> bool {
    exists|i: int| 0 <= i < frames_read(o, input).len() && acknowledges(#[trigger] frames_read(o, input)[i], s)
}

/// `input` is a command that the session would send with sequence number `s`.
pub open spec fn writes_at(o: SessionView, input: SessionInput, s: u8) -> bool {
    input is Command && seq_after(o.sequence, 1) == s
}

/// `a` reports the failure of the write with sequence number `s`.
pub open spec fn fails_write(a: SessionAction, s: u8) -> bool {
    a matches SessionAction::Emit(DeviceEvent::CommandFailed { sequence: Some(x), .. }) && x == s
}

proof fn lemma_frame_pending(
    o: SessionView,
    f: SpecFrame,
    now: u64,
    n: SessionView,
    acts: Seq<SessionAction>,
    fault: Option<SessionFault>,
    s: u8,
)
    requires
        frame_step(o, f, now, n, acts, fault),
    ensures
        n.pending.dom().contains(s) ==> o.pending.dom().contains(s),
        o.pending.dom().contains(s) && !acknowledges(f, s) ==> n.pending.dom().contains(s)
            && n.pending[s] == o.pending[s],
{
    let id = normalize_spec(f.command);
    if id != command::QUERY_PROTOCOL {
        let activating = id == command::ACTIVATE && !o.sync_started;
        let m = if activating {
            SessionView {
                sync_started: true,
                identification_deadline: Some(deadline_after(now)),
                snapshot: SpecSnapshot { connection: ConnectionState::Syncing, ..o.snapshot },
                sequence: seq_after(o.sequence, 15),
                ..o
            }
        } else {
            o
        };
        let k: int = if activating { 16 } else { 0 };
        assert(report_step(m, f, n, acts.skip(k), fault));
        if id != command::QUERY_REMOTE_CONFIG {
            let r = choose|r: Result<Option<DeviceEvent>, ProtocolError>|
                #[trigger] decoded(f, r) && match r {
                    Err(e) => fault == Some(SessionFault::Protocol(e)) && n == m && acts.skip(k).len() == 0,
                    Ok(None) => fault is None && n == m && acts.skip(k).len() == 0,
                    Ok(Some(ev)) => fault is None && event_step(m, ev, n, acts.skip(k)),
                };
            if r is Ok && r->Ok_0 is Some {
                let ev = r->Ok_0->Some_0;
                assert(decoded(f, Ok(Some(ev))));
                if ev is Acknowledged && ev->Acknowledged_sequence == s {
                    assert(acknowledges(f, s));
                }
            }
        }
    }
}

proof fn lemma_trace_pending(
    frames: Seq<SpecFrame>,
    now: u64,
    acts: Seq<SessionAction>,
    fault: Option<SessionFault>,
    states: Seq<SessionView>,
    bounds: Seq<int>,
    k: int,
    i: int,
    s: u8,
)
    requires
        trace(frames, now, acts, fault, states, bounds, k),
        0 <= i <= k,
    ensures
        states[i].pending.dom().contains(s) ==> states[0].pending.dom().contains(s),
        states[0].pending.dom().contains(s) && (forall|x: int|
            0 <= x < frames.len() ==> !acknowledges(#[trigger] frames[x], s)) ==> states[i].pending.dom().contains(s)
            && states[i].pending[s] == states[0].pending[s],
    decreases i,
{
    if i > 0 {
        lemma_trace_pending(frames, now, acts, fault, states, bounds, k, i - 1, s);
        let j = i - 1;
        assert(frame_step(
            states[j],
            frames[j],
            now,
            states[j + 1],
            acts.subrange(bounds[j], bounds[j + 1]),
            if j == k - 1 { fault } else { None },
        ));
        lemma_frame_pending(
            states[j],
            frames[j],
            now,
            states[j + 1],
            acts.subrange(bounds[j], bounds[j + 1]),
            if j == k - 1 { fault } else { None },
            s,
        );
    }
}

/// What one input does to the write with sequence number `s`: only a command
/// sent with that number starts it; it stays, unchanged, unless a frame
/// acknowledges it, a command reuses its number, or a tick finds it overdue.
proof fn lemma_input_pending(
    o: SessionView,
    input: SessionInput,
    now: u64,
    n: SessionView,
    acts: Seq<SessionAction>,
    s: u8,
)
    requires
        input_step(o, input, now, n, acts, None),
    ensures
        n.pending.dom().contains(s) && !o.pending.dom().contains(s) ==> writes_at(o, input, s),
        o.pending.dom().contains(s) && !acknowledged_in(o, input, s) && !writes_at(o, input, s) && !(
        input is Tick && o.pending[s].1 <= now) ==> n.pending.dom().contains(s) && n.pending[s]
            == o.pending[s],
{
    match input {
        SessionInput::Bytes(b) => {
            let frames = decode_all(o.buffer + b).0;
            let end = decode_all(o.buffer + b).1;
            if let DecodeEnd::Done(rest) = end {
                let o2 = SessionView { buffer: rest, ..o };
                assert(run_ok(o2, frames, now, n, acts, None));
                let (states, bounds, k) = choose|states: Seq<SessionView>, bounds: Seq<int>, k: int|
                    #[trigger] trace(frames, now, acts, None, states, bounds, k) && states[0] == o2
                        && states[k] == n;
                if !acknowledged_in(o, input, s) {
                    assert forall|x: int| 0 <= x < frames.len() implies !acknowledges(#[trigger] frames[x], s) by {
                        assert(frames_read(o, input)[x] == frames[x]);
                    }
                }
                lemma_trace_pending(frames, now, acts, None, states, bounds, k, k, s);
            }
        },
        SessionInput::Command(_) => {},
        SessionInput::Tick => {
            assert(n.pending == unexpired(o.pending, now));
        },
    }
}

proof fn lemma_input_keeps_lock(
    o: SessionView,
    input: SessionInput,
    now: u64,
    n: SessionView,
    acts: Seq<SessionAction>,
)
    requires
        input_step(o, input, now, n, acts, None),
        !o.supported,
        !brings_identity(o, input),
    ensures
        !n.supported,
        input is Command && !is_read_only(input->Command_0) ==> n == o && acts.len() == 1 && fails(
            acts[0],
            None,
            input->Command_0,
            BLOCKED_REASON@,
        ),
{
    if let SessionInput::Bytes(b) = input {
        let frames = decode_all(o.buffer + b).0;
        let end = decode_all(o.buffer + b).1;
        if let DecodeEnd::Done(rest) = end {
            let o2 = SessionView { buffer: rest, ..o };
            if n.supported {
                law_run_unlocks_only_on_b171_identity(o2, frames, now, n, acts, None);
                let i = choose|i: int|
                    0 <= i < frames.len() && normalize_spec(#[trigger] frames[i].command)
                        == command::QUERY_REMOTE_CONFIG && identifies_b171(frames[i].payload);
                assert(identifies(frames_read(o, input)[i]));
            }
        }
    }
}

/// Until the earbuds identify as B171, writes stay blocked over a whole run:
/// the session is never allowed to write, and every changing command is
/// answered by exactly one failure with the blocking reason, nothing written,
/// and the state unchanged. Ticks and reads that carry no identity keep it so.
pub proof fn law_writes_stay_blocked_until_identified(
    inputs: Seq<(SessionInput, u64)>,
    states: Seq<SessionView>,
    acts: Seq<Seq<SessionAction>>,
    j: int,
)
    requires
        session_run(inputs, states, acts),
        !states[0].supported,
        0 <= j <= inputs.len(),
        forall|i: int| 0 <= i < j ==> !brings_identity(states[i], (#[trigger] inputs[i]).0),
    ensures
        forall|i: int| 0 <= i <= j ==> !(#[trigger] states[i]).supported,
        forall|i: int|
            0 <= i < j && (#[trigger] inputs[i]).0 is Command && !is_read_only(inputs[i].0->Command_0)
                ==> states[i + 1] == states[i] && acts[i].len() == 1 && fails(
                acts[i][0],
                None,
                inputs[i].0->Command_0,
                BLOCKED_REASON@,
            ),
    decreases j,
{
    if j > 0 {
        law_writes_stay_blocked_until_identified(inputs, states, acts, j - 1);
        let i = j - 1;
        assert(!states[i].supported);
        assert(input_step(states[i], inputs[i].0, inputs[i].1, states[i + 1], acts[i], None));
        lemma_input_keeps_lock(states[i], inputs[i].0, inputs[i].1, states[i + 1], acts[i]);
    }
}

/// Once write `s` is settled (no longer waiting), nothing reports it as
/// failed and it stays settled, until a command is sent again with sequence
/// number `s`.
pub proof fn law_settled_write_is_not_failed_again(
    inputs: Seq<(SessionInput, u64)>,
    states: Seq<SessionView>,
    acts: Seq<Seq<SessionAction>>,
    s: u8,
    a: int,
    b: int,
)
    requires
        session_run(inputs, states, acts),
        0 <= a <= b <= inputs.len(),
        !states[a].pending.dom().contains(s),
        forall|i: int| a <= i < b ==> !writes_at(states[i], (#[trigger] inputs[i]).0, s),
    ensures
        forall|i: int| a <= i <= b ==> !(#[trigger] states[i]).pending.dom().contains(s),
        forall|i: int, x: int|
            a <= i < b && 0 <= x < acts[i].len() ==> !fails_write(
                #[trigger] acts[i][x],
                s,
            ),
    decreases b - a,
{
    if a < b {
        law_settled_write_is_not_failed_again(inputs, states, acts, s, a, b - 1);
        let i = b - 1;
        assert(input_step(states[i], inputs[i].0, inputs[i].1, states[i + 1], acts[i], None));
        lemma_input_pending(states[i], inputs[i].0, inputs[i].1, states[i + 1], acts[i], s);
        if inputs[i].0 is Tick {
            lemma_tick_spares(states[i], inputs[i].1, states[i + 1], acts[i], s);
        } else {
            lemma_only_ticks_fail_writes(states[i], inputs[i].0, inputs[i].1, states[i + 1], acts[i], s);
        }
    }
}

/// A tick reports a failure for write `s` only if `s` was waiting and overdue.
proof fn lemma_tick_spares(o: SessionView, now: u64, n: SessionView, acts: Seq<SessionAction>, s: u8)
    requires
        tick_step(o, now, n, acts, None),
        !(o.pending.dom().contains(s) && o.pending[s].1 <= now),
    ensures
        forall|x: int| 0 <= x < acts.len() ==> !fails_write(#[trigger] acts[x], s),
{
    let keys = expired_keys(o.pending, now, 256);
    lemma_expired_keys(o.pending, now, 256);
    let unsupported = !o.supported && (o.identification_deadline matches Some(d) && d <= now);
    let first: int = if unsupported { 1 } else { 0 };
    assert(!(!o.sync_started && now >= o.activation_deadline));
    assert(acts.len() == first + keys.len());
    assert forall|x: int| 0 <= x < acts.len() implies !fails_write(#[trigger] acts[x], s) by {
        if x >= first {
            assert(0 <= x - first < keys.len());
            let i = x - first;
            assert(fails(acts[x], Some(keys[i]), o.pending[keys[i]].0, TIMEOUT_REASON@));
            assert(keys.contains(keys[i]));
        }
    }
}

/// A tick at or after the deadline of waiting write `s` reports it as failed
/// exactly once, with its command and the timeout reason, and ends the wait.
proof fn lemma_tick_fails_once(o: SessionView, now: u64, n: SessionView, acts: Seq<SessionAction>, s: u8)
    requires
        tick_step(o, now, n, acts, None),
        o.pending.dom().contains(s),
        o.pending[s].1 <= now,
    ensures
        exists|x: int|
            0 <= x < acts.len() && fails(#[trigger] acts[x], Some(s), o.pending[s].0, TIMEOUT_REASON@)
                && forall|y: int| 0 <= y < acts.len() && y != x ==> !fails_write(#[trigger] acts[y], s),
        !n.pending.dom().contains(s),
{
    let keys = expired_keys(o.pending, now, 256);
    lemma_expired_keys(o.pending, now, 256);
    let unsupported = !o.supported && (o.identification_deadline matches Some(d) && d <= now);
    let first: int = if unsupported { 1 } else { 0 };
    assert(!(!o.sync_started && now >= o.activation_deadline));
    assert(acts.len() == first + keys.len());
    assert(keys.contains(s));
    let idx = choose|idx: int| 0 <= idx < keys.len() && keys[idx] == s;
    let x = first + idx;
    assert(fails(acts[x], Some(keys[x - first]), o.pending[keys[x - first]].0, TIMEOUT_REASON@));
    assert forall|y: int| 0 <= y < acts.len() && y != x implies !fails_write(#[trigger] acts[y], s) by {
        if y >= first {
            assert(fails(acts[y], Some(keys[y - first]), o.pending[keys[y - first]].0, TIMEOUT_REASON@));
            assert(keys[y - first] != keys[idx]);
        }
    }
    assert(n.pending == unexpired(o.pending, now));
}

proof fn lemma_write_waits(
    inputs: Seq<(SessionInput, u64)>,
    states: Seq<SessionView>,
    acts: Seq<Seq<SessionAction>>,
    j: int,
    m: int,
    s: u8,
    w: (DeviceCommand, u64),
)
    requires
        session_run(inputs, states, acts),
        0 <= j < m <= inputs.len(),
        states[j + 1].pending.dom().contains(s),
        states[j + 1].pending[s] == w,
        forall|i: int| j < i < m ==> !acknowledged_in(states[i], (#[trigger] inputs[i]).0, s),
        forall|i: int| j < i < m ==> !writes_at(states[i], (#[trigger] inputs[i]).0, s),
        forall|i: int| j < i < m && (#[trigger] inputs[i]).0 is Tick ==> inputs[i].1 < w.1,
    ensures
        forall|i: int|
            j < i <= m ==> (#[trigger] states[i]).pending.dom().contains(s) && states[i].pending[s] == w,
        forall|i: int, x: int|
            j < i < m && 0 <= x < acts[i].len() ==> !fails_write(
                #[trigger] acts[i][x],
                s,
            ),
    decreases m,
{
    if m > j + 1 {
        lemma_write_waits(inputs, states, acts, j, m - 1, s, w);
        let i = m - 1;
        assert(input_step(states[i], inputs[i].0, inputs[i].1, states[i + 1], acts[i], None));
        lemma_input_pending(states[i], inputs[i].0, inputs[i].1, states[i + 1], acts[i], s);
        if inputs[i].0 is Tick {
            lemma_tick_spares(states[i], inputs[i].1, states[i + 1], acts[i], s);
        } else {
            lemma_only_ticks_fail_writes(states[i], inputs[i].0, inputs[i].1, states[i + 1], acts[i], s);
        }
    }
}

/// A write that is never acknowledged fails once, at the first tick at or
/// after its deadline, four seconds after it was sent. Changing command `c`,
/// sent at input `j` with sequence number `s`, waits unchanged until then;
/// nothing reports it earlier; tick `k` reports exactly one failure for it,
/// with `c` and the timeout reason; afterwards it no longer waits. This holds
/// while no frame acknowledges `s` and no other command is sent with `s`.
pub proof fn law_unacknowledged_write_fails_at_first_late_tick(
    inputs: Seq<(SessionInput, u64)>,
    states: Seq<SessionView>,
    acts: Seq<Seq<SessionAction>>,
    j: int,
    k: int,
    c: DeviceCommand,
    s: u8,
)
    requires
        session_run(inputs, states, acts),
        0 <= j < k < inputs.len(),
        inputs[j].0 == SessionInput::Command(c),
        !is_read_only(c),
        states[j].supported,
        s == seq_after(states[j].sequence, 1),
        encode_command_spec(c, s) is Ok,
        forall|i: int| j < i < k ==> !acknowledged_in(states[i], (#[trigger] inputs[i]).0, s),
        forall|i: int| j < i < k ==> !writes_at(states[i], (#[trigger] inputs[i]).0, s),
        forall|i: int|
            j < i < k && (#[trigger] inputs[i]).0 is Tick ==> inputs[i].1 < deadline_after(inputs[j].1),
        inputs[k].0 is Tick,
        inputs[k].1 >= deadline_after(inputs[j].1),
    ensures
        writes_command(acts[j][0], c, s),
        forall|i: int|
            j < i <= k ==> (#[trigger] states[i]).pending.dom().contains(s) && states[i].pending[s] == (
            c,
            deadline_after(inputs[j].1),
        ),
        forall|i: int, x: int|
            j < i < k && 0 <= x < acts[i].len() ==> !fails_write(
                #[trigger] acts[i][x],
                s,
            ),
        exists|x: int|
            0 <= x < acts[k].len() && fails(#[trigger] acts[k][x], Some(s), c, TIMEOUT_REASON@) && forall|
                y: int,
            | 0 <= y < acts[k].len() && y != x ==> !fails_write(#[trigger] acts[k][y], s),
        !states[k + 1].pending.dom().contains(s),
{
    let w = (c, deadline_after(inputs[j].1));
    assert(input_step(states[j], inputs[j].0, inputs[j].1, states[j + 1], acts[j], None));
    assert(command_step(states[j], c, inputs[j].1, states[j + 1], acts[j]));
    assert(states[j + 1].pending == states[j].pending.insert(s, w));
    lemma_write_waits(inputs, states, acts, j, k, s, w);
    assert(states[k].pending.dom().contains(s));
    assert(input_step(states[k], inputs[k].0, inputs[k].1, states[k + 1], acts[k], None));
    lemma_tick_fails_once(states[k], inputs[k].1, states[k + 1], acts[k], s);
}

/// An acknowledged write is read back and settled: the acknowledgement of
/// waiting write `s` first confirms its command, then sends the command's
/// confirmation query with the next sequence number, re-emits the
/// acknowledgement last, and ends the wait, so that no later tick reports the
/// write as failed (`law_settled_write_is_not_failed_again`).
pub proof fn law_acknowledged_write_is_read_back(
    m: SessionView,
    ev: DeviceEvent,
    n: SessionView,
    acts: Seq<SessionAction>,
    s: u8,
)
    requires
        event_step(m, ev, n, acts),
        ev is Acknowledged,
        ev->Acknowledged_sequence == s,
        m.pending.dom().contains(s),
    ensures
        acts[0] matches SessionAction::Emit(DeviceEvent::CommandConfirmed { sequence, command })
            && sequence == s && command == m.pending[s].0,
        confirmation_spec(m.pending[s].0) matches Some(q) ==> writes_command(
            acts[1],
            q,
            seq_after(m.sequence, 1),
        ) && n.sequence == seq_after(m.sequence, 1),
        acts[acts.len() - 1] == SessionAction::Emit(ev),
        !n.pending.dom().contains(s),
{
}

/// The same at the level of frames: a frame read from the earbuds that
/// acknowledges waiting write `s` (other than the first activation answer,
/// which starts synchronisation) confirms the write's command, sends its
/// confirmation query with the next sequence number, re-emits the
/// acknowledgement last, and ends the wait.
pub proof fn law_acknowledging_frame_is_read_back(
    o: SessionView,
    f: SpecFrame,
    now: u64,
    n: SessionView,
    acts: Seq<SessionAction>,
    fault: Option<SessionFault>,
    s: u8,
)
    requires
        frame_step(o, f, now, n, acts, fault),
        acknowledges(f, s),
        o.pending.dom().contains(s),
        normalize_spec(f.command) != command::ACTIVATE || o.sync_started,
    ensures
        fault is None,
        acts[0] matches SessionAction::Emit(DeviceEvent::CommandConfirmed { sequence, command })
            && sequence == s && command == o.pending[s].0,
        confirmation_spec(o.pending[s].0) matches Some(q) ==> writes_command(
            acts[1],
            q,
            seq_after(o.sequence, 1),
        ) && n.sequence == seq_after(o.sequence, 1),
        acts[acts.len() - 1] matches SessionAction::Emit(DeviceEvent::Acknowledged { sequence, .. })
            && sequence == s,
        !n.pending.dom().contains(s),
{
    let ev = choose|ev: DeviceEvent|
        #[trigger] decoded(f, Ok(Some(ev))) && ev is Acknowledged && ev->Acknowledged_sequence == s;
    let id = normalize_spec(f.command);
    assert(id != command::QUERY_PROTOCOL);
    assert(id != command::QUERY_REMOTE_CONFIG);
    assert(report_step(o, f, n, acts.skip(0), fault));
    assert(acts.skip(0) == acts);
    let r = choose|r: Result<Option<DeviceEvent>, ProtocolError>|
        #[trigger] decoded(f, r) && match r {
            Err(e) => fault == Some(SessionFault::Protocol(e)) && n == o && acts.len() == 0,
            Ok(None) => fault is None && n == o && acts.len() == 0,
            Ok(Some(e)) => fault is None && event_step(o, e, n, acts),
        };
    assert(r == Ok::<Option<DeviceEvent>, ProtocolError>(Some(ev)));
    law_acknowledged_write_is_read_back(o, ev, n, acts, s);
}

/// `a` reports the failure of some command.
pub open spec fn is_failure(a: SessionAction) -> bool {
    a matches SessionAction::Emit(DeviceEvent::CommandFailed { .. })
}

proof fn lemma_decoded_is_no_failure(f: SpecFrame, ev: DeviceEvent)
    requires
        decoded(f, Ok(Some(ev))),
    ensures
        !(ev is CommandFailed),
{
}

proof fn lemma_event_reports_no_failure(m: SessionView, ev: DeviceEvent, n: SessionView, acts: Seq<SessionAction>)
    requires
        event_step(m, ev, n, acts),
        !(ev is CommandFailed),
    ensures
        forall|x: int| 0 <= x < acts.len() ==> !is_failure(#[trigger] acts[x]),
{
    let acked = ev matches DeviceEvent::Acknowledged { sequence: a, .. } && m.pending.dom().contains(a);
    let query = if acked { confirmation_spec(m.pending[ev->Acknowledged_sequence].0) } else { None };
    let pre: int = (if acked { 1int } else { 0int }) + (if query is Some { 1int } else { 0int });
    let battery = ev matches DeviceEvent::Battery(b);
    let alerts = if battery { alerts_spec(m.low_battery, ev->Battery_0) } else { Seq::empty() };
    assert forall|x: int| 0 <= x < acts.len() implies !is_failure(#[trigger] acts[x]) by {
        if x == acts.len() - 1 {
        } else if x >= pre {
            assert(acts[x] == SessionAction::Notify(alerts[x - pre]));
        }
    }
}

proof fn lemma_frame_reports_no_failure(
    o: SessionView,
    f: SpecFrame,
    now: u64,
    n: SessionView,
    acts: Seq<SessionAction>,
    fault: Option<SessionFault>,
)
    requires
        frame_step(o, f, now, n, acts, fault),
    ensures
        forall|x: int| 0 <= x < acts.len() ==> !is_failure(#[trigger] acts[x]),
{
    let id = normalize_spec(f.command);
    if id != command::QUERY_PROTOCOL {
        let activating = id == command::ACTIVATE && !o.sync_started;
        let m = if activating {
            SessionView {
                sync_started: true,
                identification_deadline: Some(deadline_after(now)),
                snapshot: SpecSnapshot { connection: ConnectionState::Syncing, ..o.snapshot },
                sequence: seq_after(o.sequence, 15),
                ..o
            }
        } else {
            o
        };
        let k: int = if activating { 16 } else { 0 };
        let rest = acts.skip(k);
        assert(report_step(m, f, n, rest, fault));
        if id != command::QUERY_REMOTE_CONFIG {
            let r = choose|r: Result<Option<DeviceEvent>, ProtocolError>|
                #[trigger] decoded(f, r) && match r {
                    Err(e) => fault == Some(SessionFault::Protocol(e)) && n == m && rest.len() == 0,
                    Ok(None) => fault is None && n == m && rest.len() == 0,
                    Ok(Some(ev)) => fault is None && event_step(m, ev, n, rest),
                };
            if r is Ok && r->Ok_0 is Some {
                let ev = r->Ok_0->Some_0;
                lemma_decoded_is_no_failure(f, ev);
                lemma_event_reports_no_failure(m, ev, n, rest);
            }
        }
        assert forall|x: int| 0 <= x < acts.len() implies !is_failure(#[trigger] acts[x]) by {
            if x >= k {
                assert(acts[x] == rest[x - k]);
            } else if x >= 1 {
                let w = acts.subrange(1, 16);
                assert(acts[x] == w[x - 1]);
                if x >= 2 {
                    assert(writes_command(w[1 + (x - 2)], sync_query_spec(x - 2), seq_after(o.sequence, 2 + (x - 2))));
                }
            }
        }
    }
}

proof fn lemma_trace_reports_no_failure(
    frames: Seq<SpecFrame>,
    now: u64,
    acts: Seq<SessionAction>,
    fault: Option<SessionFault>,
    states: Seq<SessionView>,
    bounds: Seq<int>,
    k: int,
    i: int,
)
    requires
        trace(frames, now, acts, fault, states, bounds, k),
        0 <= i <= k,
    ensures
        forall|x: int| 0 <= x < bounds[i] ==> !is_failure(#[trigger] acts[x]),
    decreases i,
{
    if i > 0 {
        lemma_trace_reports_no_failure(frames, now, acts, fault, states, bounds, k, i - 1);
        let j = i - 1;
        let part = acts.subrange(bounds[j], bounds[j + 1]);
        assert(bounds[j] <= bounds[j + 1]);
        lemma_trace_bounds(frames, now, acts, fault, states, bounds, k, i);
        lemma_trace_bounds(frames, now, acts, fault, states, bounds, k, j);
        assert(frame_step(states[j], frames[j], now, states[j + 1], part, if j == k - 1 { fault } else { None }));
        lemma_frame_reports_no_failure(states[j], frames[j], now, states[j + 1], part, if j == k - 1 { fault } else { None });
        assert forall|x: int| 0 <= x < bounds[i] implies !is_failure(#[trigger] acts[x]) by {
            if x >= bounds[j] {
                assert(acts[x] == part[x - bounds[j]]);
            }
        }
    }
}

proof fn lemma_trace_bounds(
    frames: Seq<SpecFrame>,
    now: u64,
    acts: Seq<SessionAction>,
    fault: Option<SessionFault>,
    states: Seq<SessionView>,
    bounds: Seq<int>,
    k: int,
    i: int,
)
    requires
        trace(frames, now, acts, fault, states, bounds, k),
        0 <= i <= k,
    ensures
        0 <= bounds[i] <= acts.len(),
    decreases k - i,
{
    if i < k {
        lemma_trace_bounds(frames, now, acts, fault, states, bounds, k, i + 1);
        assert(bounds[i] <= bounds[i + 1]);
    }
    if i > 0 {
        lemma_trace_lower(frames, now, acts, fault, states, bounds, k, i);
    }
}

proof fn lemma_trace_lower(
    frames: Seq<SpecFrame>,
    now: u64,
    acts: Seq<SessionAction>,
    fault: Option<SessionFault>,
    states: Seq<SessionView>,
    bounds: Seq<int>,
    k: int,
    i: int,
)
    requires
        trace(frames, now, acts, fault, states, bounds, k),
        0 <= i <= k,
    ensures
        0 <= bounds[i],
    decreases i,
{
    if i > 0 {
        lemma_trace_lower(frames, now, acts, fault, states, bounds, k, i - 1);
        let j = i - 1;
        assert(bounds[j] <= bounds[j + 1]);
    }
}

/// Only the timer reports writes as failed: bytes read from the earbuds and
/// commands never report the failure of a write with a sequence number.
proof fn lemma_only_ticks_fail_writes(
    o: SessionView,
    input: SessionInput,
    now: u64,
    n: SessionView,
    acts: Seq<SessionAction>,
    s: u8,
)
    requires
        input_step(o, input, now, n, acts, None),
        !(input is Tick),
    ensures
        forall|x: int| 0 <= x < acts.len() ==> !fails_write(#[trigger] acts[x], s),
{
    match input {
        SessionInput::Bytes(b) => {
            let frames = decode_all(o.buffer + b).0;
            let end = decode_all(o.buffer + b).1;
            if let DecodeEnd::Done(rest) = end {
                let o2 = SessionView { buffer: rest, ..o };
                assert(run_ok(o2, frames, now, n, acts, None));
                let (states, bounds, k) = choose|states: Seq<SessionView>, bounds: Seq<int>, k: int|
                    #[trigger] trace(frames, now, acts, None, states, bounds, k) && states[0] == o2
                        && states[k] == n;
                lemma_trace_reports_no_failure(frames, now, acts, None, states, bounds, k, k);
                assert forall|x: int| 0 <= x < acts.len() implies !fails_write(#[trigger] acts[x], s) by {
                    assert(!is_failure(acts[x]));
                }
            }
        },
        _ => {},
    }
}

} // verus!
