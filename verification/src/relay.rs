//! The event relay: the state machine that consumes the backend's lifecycle
//! events.

use vstd::prelude::*;

verus! {

/// A lifecycle event of the backend process, as the event stream delivers it.
/// Output and error lines arrive as raw bytes: the backend may well emit text
/// that is not valid UTF-8.
#[derive(Debug, PartialEq, Eq)]
pub enum BackendEvent {
    StdoutLine(Vec<u8>),
    StderrLine(Vec<u8>),
    Error(String),
    Terminated(i32),
}

/// The mathematical model of a lifecycle event.
pub enum EventModel {
    StdoutLine(Seq<u8>),
    StderrLine(Seq<u8>),
    Error(Seq<char>),
    Terminated(int),
}

impl View for BackendEvent {
    type V = EventModel;

    open spec fn view(&self) -> EventModel {
        match self {
            BackendEvent::StdoutLine(b) => EventModel::StdoutLine(b@),
            BackendEvent::StderrLine(b) => EventModel::StderrLine(b@),
            BackendEvent::Error(m) => EventModel::Error(m@),
            BackendEvent::Terminated(s) => EventModel::Terminated(*s as int),
        }
    }
}

/// A notification emitted to the UI layer, fire and forget: the backend
/// reported an error, or it terminated with a status.
#[derive(Debug, PartialEq, Eq)]
pub enum Notification {
    BackendError(String),
    BackendTerminated(i32),
}

/// The mathematical model of a notification.
pub enum NoteModel {
    BackendError(Seq<char>),
    BackendTerminated(int),
}

impl View for Notification {
    type V = NoteModel;

    open spec fn view(&self) -> NoteModel {
        match self {
            Notification::BackendError(m) => NoteModel::BackendError(m@),
            Notification::BackendTerminated(s) => NoteModel::BackendTerminated(*s as int),
        }
    }
}

/// One log record of the relay. Byte lines are decoded permissively: invalid
/// UTF-8 is replaced, never rejected, so every event can be logged.
#[derive(Debug, PartialEq, Eq)]
pub enum LogEntry {
    StdoutLine(String),
    StderrLine(String),
    Error(String),
    Terminated(i32),
}

/// The mathematical model of a log record.
pub enum LogModel {
    StdoutLine(Seq<char>),
    StderrLine(Seq<char>),
    Error(Seq<char>),
    Terminated(int),
}

impl View for LogEntry {
    type V = LogModel;

    open spec fn view(&self) -> LogModel {
        match self {
            LogEntry::StdoutLine(s) => LogModel::StdoutLine(s@),
            LogEntry::StderrLine(s) => LogModel::StderrLine(s@),
            LogEntry::Error(m) => LogModel::Error(m@),
            LogEntry::Terminated(s) => LogModel::Terminated(*s as int),
        }
    }
}

/// The relay's state: it listens until the backend terminates.
#[derive(Debug, Clone, Copy, PartialEq, Eq, Structural)]
pub enum RelayState {
    Listening,
    Done,
}

/// The permissive decoding of arbitrary bytes to text. It is a fixed function
/// of the bytes alone; its value on given bytes is not stated here, only that
/// the decoding of a byte line depends on nothing but the line.
pub uninterp spec fn lossy_decode_of(bytes: Seq<u8>) -> Seq<char>;

/// Relies on String::from_utf8_lossy: decodes bytes as UTF-8, replacing
/// invalid sequences with the replacement character; never fails, and the
/// result depends on the bytes alone.
#[verifier::external_body]
fn decode_lossy(bytes: &Vec<u8>) -> (r: String)
    ensures
        r@ == lossy_decode_of(bytes@),
{
    String::from_utf8_lossy(bytes).into_owned()
}

/// The relay's state after one event: only termination ends the listening.
pub open spec fn step_state(ev: EventModel) -> RelayState {
    match ev {
        EventModel::Terminated(_) => RelayState::Done,
        _ => RelayState::Listening,
    }
}

/// The notification one event earns: an error and the termination notify the
/// UI layer, carrying the message or status verbatim; output lines only log.
pub open spec fn step_note(ev: EventModel) -> Option<NoteModel> {
    match ev {
        EventModel::Error(m) => Some(NoteModel::BackendError(m)),
        EventModel::Terminated(s) => Some(NoteModel::BackendTerminated(s)),
        _ => None::<NoteModel>,
    }
}

/// The log record of one event; byte lines are decoded permissively.
pub open spec fn step_log(ev: EventModel) -> LogModel {
    match ev {
        EventModel::StdoutLine(b) => LogModel::StdoutLine(lossy_decode_of(b)),
        EventModel::StderrLine(b) => LogModel::StderrLine(lossy_decode_of(b)),
        EventModel::Error(m) => LogModel::Error(m),
        EventModel::Terminated(s) => LogModel::Terminated(s),
    }
}

/// The view of an optional notification.
pub open spec fn note_view(n: Option<Notification>) -> Option<NoteModel> {
    match n {
        Some(x) => Some(x@),
        None => None::<NoteModel>,
    }
}

/// What the relay does with one event: the state it moves to, the record it
/// logs, and the notification it emits, if the event warrants one.
pub struct StepOutput {
    pub next: RelayState,
    pub log: LogEntry,
    pub notification: Option<Notification>,
}

/// One step of the listening relay. Every event is accepted — malformed byte
/// lines included — and logged; errors and the termination are turned into
/// notifications; only the termination ends the listening.
pub fn relay_step(event: &BackendEvent) -> (out: StepOutput)
    ensures
        out.next == step_state(event@),
        out.log@ == step_log(event@),
        note_view(out.notification) == step_note(event@),
{
    match event {
        BackendEvent::StdoutLine(b) => StepOutput {
            next: RelayState::Listening,
            log: LogEntry::StdoutLine(decode_lossy(b)),
            notification: None,
        },
        BackendEvent::StderrLine(b) => StepOutput {
            next: RelayState::Listening,
            log: LogEntry::StderrLine(decode_lossy(b)),
            notification: None,
        },
        BackendEvent::Error(m) => StepOutput {
            next: RelayState::Listening,
            log: LogEntry::Error(m.clone()),
            notification: Some(Notification::BackendError(m.clone())),
        },
        BackendEvent::Terminated(s) => StepOutput {
            next: RelayState::Done,
            log: LogEntry::Terminated(*s),
            notification: Some(Notification::BackendTerminated(*s)),
        },
    }
}

/// How many of a delivered event stream's events the relay consumes:
/// everything up to and including the first termination event, or the whole
/// stream when none terminates it (the channel closed instead).
pub open spec fn run_processed(events: Seq<EventModel>) -> int
    decreases events.len(),
{
    if events.len() == 0 {
        0
    } else if events[0] is Terminated {
        1
    } else {
        1 + run_processed(events.drop_first())
    }
}

/// The notifications the relay emits over a delivered event stream, in order.
pub open spec fn run_notes(events: Seq<EventModel>) -> Seq<NoteModel>
    decreases events.len(),
{
    if events.len() == 0 {
        Seq::<NoteModel>::empty()
    } else {
        let head = match step_note(events[0]) {
            Some(n) => seq![n],
            None => Seq::<NoteModel>::empty(),
        };
        if events[0] is Terminated {
            head
        } else {
            head + run_notes(events.drop_first())
        }
    }
}

/// The log records the relay writes over a delivered event stream: one for
/// every consumed event, in order.
pub open spec fn run_logs(events: Seq<EventModel>) -> Seq<LogModel>
    decreases events.len(),
{
    if events.len() == 0 {
        Seq::<LogModel>::empty()
    } else if events[0] is Terminated {
        seq![step_log(events[0])]
    } else {
        seq![step_log(events[0])] + run_logs(events.drop_first())
    }
}

/// The view of a delivered event stream.
pub open spec fn events_view(v: Seq<BackendEvent>) -> Seq<EventModel> {
    v.map(|i: int, e: BackendEvent| e@)
}

/// The view of the written log records.
pub open spec fn logs_view(v: Seq<LogEntry>) -> Seq<LogModel> {
    v.map(|i: int, l: LogEntry| l@)
}

/// The view of the emitted notifications.
pub open spec fn notes_view(v: Seq<Notification>) -> Seq<NoteModel> {
    v.map(|i: int, n: Notification| n@)
}

/// What running the relay over an event stream produced.
pub struct RelayOutput {
    /// One record for every consumed event, in order.
    pub logs: Vec<LogEntry>,
    /// The notifications to the UI layer, in order.
    pub notifications: Vec<Notification>,
    /// How many events were consumed before the relay was done.
    pub processed: usize,
}

/// Runs the relay over a delivered event stream: events are consumed in
/// order, each one logged, until the first termination event is handled or
/// the stream ends; whatever follows a termination is never looked at.
pub fn run_relay(events: &Vec<BackendEvent>) -> (out: RelayOutput)
    ensures
        logs_view(out.logs@) == run_logs(events_view(events@)),
        notes_view(out.notifications@) == run_notes(events_view(events@)),
        out.processed == run_processed(events_view(events@)),
        out.processed <= events@.len(),
{
    let ghost evs = events_view(events@);
    let mut logs: Vec<LogEntry> = Vec::new();
    let mut notifications: Vec<Notification> = Vec::new();
    let mut i: usize = 0;
    proof {
        assert(evs.skip(0) =~= evs);
        assert(logs_view(logs@) =~= Seq::<LogModel>::empty());
        assert(notes_view(notifications@) =~= Seq::<NoteModel>::empty());
    }
    loop
        invariant_except_break
            i <= events@.len(),
            evs == events_view(events@),
            evs.len() == events@.len(),
            logs_view(logs@) + run_logs(evs.skip(i as int)) == run_logs(evs),
            notes_view(notifications@) + run_notes(evs.skip(i as int)) == run_notes(evs),
            i + run_processed(evs.skip(i as int)) == run_processed(evs),
        ensures
            i <= events@.len(),
            logs_view(logs@) == run_logs(evs),
            notes_view(notifications@) == run_notes(evs),
            i == run_processed(evs),
        decreases events@.len() - i,
    {
        if i == events.len() {
            proof {
                assert(evs.skip(i as int) =~= Seq::<EventModel>::empty());
                assert(logs_view(logs@) + run_logs(evs.skip(i as int)) =~= logs_view(logs@));
                assert(notes_view(notifications@) + run_notes(evs.skip(i as int)) =~= notes_view(
                    notifications@,
                ));
            }
            break ;
        }
        let ghost rest = evs.skip(i as int);
        proof {
            assert(rest[0] == evs[i as int]);
            assert(rest.drop_first() =~= evs.skip(i as int + 1));
        }
        let out = relay_step(&events[i]);
        let ghost old_logs = logs@;
        let ghost old_notes = notifications@;
        logs.push(out.log);
        proof {
            assert(logs_view(logs@) =~= logs_view(old_logs) + seq![out.log@]);
        }
        match out.notification {
            Some(n) => {
                let ghost nv = n@;
                notifications.push(n);
                proof {
                    assert(notes_view(notifications@) =~= notes_view(old_notes) + seq![nv]);
                }
            },
            None => {
            },
        }
        let terminal = out.next == RelayState::Done;
        i = i + 1;
        proof {
            assert((logs_view(old_logs) + seq![step_log(rest[0])]) + run_logs(rest.drop_first())
                =~= logs_view(old_logs) + (seq![step_log(rest[0])] + run_logs(rest.drop_first())));
            match step_note(rest[0]) {
                Some(n) => {
                    assert((notes_view(old_notes) + seq![n]) + run_notes(rest.drop_first())
                        =~= notes_view(old_notes) + (seq![n] + run_notes(rest.drop_first())));
                },
                None => {
                    assert(notes_view(old_notes) + Seq::<NoteModel>::empty() =~= notes_view(
                        old_notes,
                    ));
                },
            }
        }
        if terminal {
            proof {
                assert(rest[0] is Terminated);
                assert(run_logs(rest) == seq![step_log(rest[0])]);
                assert(logs_view(logs@) =~= run_logs(evs));
                assert(notes_view(notifications@) =~= run_notes(evs));
            }
            break ;
        }
    }
    RelayOutput { logs, notifications, processed: i }
}

/// The relay never consumes more events than the stream delivers.
pub proof fn lemma_run_processed_bounds(events: Seq<EventModel>)
    ensures
        0 <= run_processed(events) <= events.len(),
    decreases events.len(),
{
    if events.len() > 0 && !(events[0] is Terminated) {
        lemma_run_processed_bounds(events.drop_first());
    }
}

/// Every consumed event is logged: one record per consumed event, in order,
/// each the record of its event.
pub proof fn lemma_every_consumed_event_is_logged(events: Seq<EventModel>)
    ensures
        run_logs(events).len() == run_processed(events),
        forall|k: int|
            0 <= k < run_processed(events) ==> run_logs(events)[k] == step_log(events[k]),
    decreases events.len(),
{
    if events.len() > 0 && !(events[0] is Terminated) {
        let tail = events.drop_first();
        lemma_every_consumed_event_is_logged(tail);
        lemma_run_processed_bounds(tail);
        assert(run_logs(events) == seq![step_log(events[0])] + run_logs(tail));
        assert(run_processed(events) == 1 + run_processed(tail));
        assert forall|k: int| 0 <= k < run_processed(events) implies run_logs(events)[k]
            == step_log(events[k]) by {
            if k > 0 {
                assert(run_logs(events)[k] == run_logs(tail)[k - 1]);
                assert(events[k] == tail[k - 1]);
            }
        }
    }
}

/// How many backend-terminated notifications a notification sequence holds.
pub open spec fn terminated_count(notes: Seq<NoteModel>) -> int
    decreases notes.len(),
{
    if notes.len() == 0 {
        0
    } else {
        (if notes[0] is BackendTerminated {
            1int
        } else {
            0int
        }) + terminated_count(notes.drop_first())
    }
}

/// Counting backend-terminated notifications distributes over concatenation.
proof fn lemma_terminated_count_add(a: Seq<NoteModel>, b: Seq<NoteModel>)
    ensures
        terminated_count(a + b) == terminated_count(a) + terminated_count(b),
    decreases a.len(),
{
    if a.len() == 0 {
        assert(a + b =~= b);
    } else {
        assert((a + b)[0] == a[0]);
        assert((a + b).drop_first() =~= a.drop_first() + b);
        lemma_terminated_count_add(a.drop_first(), b);
    }
}

/// The notification of a non-terminal event is never a backend-terminated
/// one.
proof fn lemma_step_note_count(ev: EventModel)
    requires
        !(ev is Terminated),
    ensures
        terminated_count(
            match step_note(ev) {
                Some(n) => seq![n],
                None => Seq::<NoteModel>::empty(),
            },
        ) == 0,
{
    match step_note(ev) {
        Some(n) => {
            let h = seq![n];
            assert(!(n is BackendTerminated));
            assert(h[0] == n);
            assert(h.drop_first() =~= Seq::<NoteModel>::empty());
            assert(terminated_count(h.drop_first()) == 0);
            assert(terminated_count(h) == 0);
        },
        None => {
            assert(terminated_count(Seq::<NoteModel>::empty()) == 0);
        },
    }
}

/// Termination is final. When a stream's first termination event stands at
/// position `i`, the relay consumes exactly the events up to and including
/// it; the events behind it contribute nothing, and exactly one
/// backend-terminated notification is emitted — the last one, carrying that
/// event's status.
pub proof fn lemma_terminated_is_final(events: Seq<EventModel>, i: int)
    requires
        0 <= i < events.len(),
        events[i] is Terminated,
        forall|j: int| 0 <= j < i ==> !(events[j] is Terminated),
    ensures
        run_processed(events) == i + 1,
        run_notes(events) == run_notes(events.take(i + 1)),
        run_logs(events) == run_logs(events.take(i + 1)),
        terminated_count(run_notes(events)) == 1,
        run_notes(events).len() > 0,
        run_notes(events).last() == NoteModel::BackendTerminated(events[i]->Terminated_0),
    decreases i,
{
    if i == 0 {
        let head = seq![NoteModel::BackendTerminated(events[0]->Terminated_0)];
        assert(run_notes(events) == head);
        assert(terminated_count(head.drop_first()) == 0);
        assert(terminated_count(head) == 1);
        assert(events.take(1)[0] == events[0]);
        assert(run_notes(events.take(1)) == head);
        assert(run_logs(events.take(1)) == seq![step_log(events[0])]);
    } else {
        let tail = events.drop_first();
        assert(tail[i - 1] == events[i]);
        assert(forall|j: int| 0 <= j < i - 1 ==> tail[j] == events[j + 1] && !(tail[j]
            is Terminated));
        lemma_terminated_is_final(tail, i - 1);
        let head = match step_note(events[0]) {
            Some(n) => seq![n],
            None => Seq::<NoteModel>::empty(),
        };
        let front = events.take(i + 1);
        assert(front[0] == events[0]);
        assert(front.drop_first() =~= tail.take(i));
        assert(run_notes(events) == head + run_notes(tail));
        assert(run_notes(front) == head + run_notes(tail.take(i)));
        assert(run_logs(events) == seq![step_log(events[0])] + run_logs(tail));
        assert(run_logs(front) == seq![step_log(events[0])] + run_logs(tail.take(i)));
        lemma_terminated_count_add(head, run_notes(tail));
        assert(!(events[0] is Terminated));
        lemma_step_note_count(events[0]);
        assert(run_notes(events).last() == run_notes(tail).last());
    }
}

/// A stream that no termination event ends (its channel closed instead) is
/// consumed whole, and no backend-terminated notification is ever emitted.
pub proof fn lemma_no_termination(events: Seq<EventModel>)
    requires
        forall|j: int| 0 <= j < events.len() ==> !(events[j] is Terminated),
    ensures
        run_processed(events) == events.len(),
        terminated_count(run_notes(events)) == 0,
    decreases events.len(),
{
    if events.len() > 0 {
        let tail = events.drop_first();
        assert(forall|j: int| 0 <= j < tail.len() ==> tail[j] == events[j + 1] && !(tail[j]
            is Terminated));
        lemma_no_termination(tail);
        let head = match step_note(events[0]) {
            Some(n) => seq![n],
            None => Seq::<NoteModel>::empty(),
        };
        lemma_terminated_count_add(head, run_notes(tail));
        assert(!(events[0] is Terminated));
        lemma_step_note_count(events[0]);
    }
}

/// An error event does not end the relay: it is turned into exactly one
/// backend-error notification carrying the message verbatim, placed before
/// whatever the rest of the stream earns, and the rest is handled as it would
/// be alone.
pub proof fn lemma_error_keeps_listening(msg: Seq<char>, rest: Seq<EventModel>)
    ensures
        step_state(EventModel::Error(msg)) == RelayState::Listening,
        run_notes(seq![EventModel::Error(msg)] + rest) == seq![NoteModel::BackendError(msg)]
            + run_notes(rest),
        run_logs(seq![EventModel::Error(msg)] + rest) == seq![LogModel::Error(msg)] + run_logs(
            rest,
        ),
        run_processed(seq![EventModel::Error(msg)] + rest) == 1 + run_processed(rest),
{
    let s = seq![EventModel::Error(msg)] + rest;
    assert(s[0] == EventModel::Error(msg));
    assert(s.drop_first() =~= rest);
}

/// Malformed bytes never hurt the relay: any byte line — valid UTF-8 or not —
/// keeps it listening, earns no notification, and is logged with the
/// permissive decoding.
pub proof fn lemma_byte_lines_are_logged(bytes: Seq<u8>)
    ensures
        step_state(EventModel::StdoutLine(bytes)) == RelayState::Listening,
        step_state(EventModel::StderrLine(bytes)) == RelayState::Listening,
        step_note(EventModel::StdoutLine(bytes)) is None,
        step_note(EventModel::StderrLine(bytes)) is None,
        step_log(EventModel::StdoutLine(bytes)) == LogModel::StdoutLine(lossy_decode_of(bytes)),
        step_log(EventModel::StderrLine(bytes)) == LogModel::StderrLine(lossy_decode_of(bytes)),
{
}

} // verus!
