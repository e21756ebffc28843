use vstd::prelude::*;
use vstd::string::StringSliceAdditionalSpecFns;
use vstd::utf8::encode_utf8;

verus! {

/// Errors raised while dispatching events.
#[derive(Clone, Debug, PartialEq, Eq)]
pub enum AflError {
    /// A client received a message that should never reach it.
    IllegalMessage,
    /// A failure from a collaborator or the transport, passed on unchanged.
    Unknown(String),
}

/// The outcome of classifying an event in the broker.
#[derive(Clone, Copy, Debug, PartialEq, Eq, Structural)]
pub enum BrokerEventResult {
    /// The broker handled this event; it is not passed on.
    Handled,
    /// The event is passed along to the clients.
    Forward,
}

/// Statistics that a manager can display.
pub trait ShowStats {}

/// Events sent around between the broker and its clients.
///
/// Inputs and observer snapshots travel as complete byte blobs, so an event
/// never refers to memory owned by a transport.
#[derive(Clone, Debug, PartialEq, Eq)]
pub enum Event {
    /// A participant finished loading its initial corpus.
    LoadInitial { sender_id: u64 },
    /// A participant found an input worth sharing.
    NewTestcase { sender_id: u64, input: Vec<u8>, observers: Vec<u8> },
    /// Periodic throughput telemetry.
    UpdateStats { sender_id: u64, executions: usize, execs_over_sec: u64 },
    /// The input triggered a fault.
    Crash { sender_id: u64, input: Vec<u8> },
    /// The input exceeded its time budget.
    Timeout { sender_id: u64, input: Vec<u8> },
    /// Free-form diagnostic text.
    Log { sender_id: u64, severity_level: u8, message: String },
    /// A no-op placeholder.
    Heartbeat,
}

/// The name of each kind of event.
pub open spec fn event_name(e: Event) -> Seq<char> {
    match e {
        Event::LoadInitial { .. } => "Initial"@,
        Event::NewTestcase { .. } => "New Testcase"@,
        Event::UpdateStats { .. } => "Stats"@,
        Event::Crash { .. } => "Crash"@,
        Event::Timeout { .. } => "Timeout"@,
        Event::Log { .. } => "Log"@,
        Event::Heartbeat => "None"@,
    }
}

/// The broker's policy: only a new testcase has to reach every participant,
/// everything else is consumed by the broker.
pub open spec fn broker_classification(e: Event) -> BrokerEventResult {
    match e {
        Event::NewTestcase { .. } => BrokerEventResult::Forward,
        _ => BrokerEventResult::Handled,
    }
}

impl Event {
    /// Returns the name of this kind of event.
    pub fn name(&self) -> (r: &'static str)
        ensures
            r@ == event_name(*self),
    {
        match self {
            Event::LoadInitial { .. } => "Initial",
            Event::NewTestcase { .. } => "New Testcase",
            Event::UpdateStats { .. } => "Stats",
            Event::Crash { .. } => "Crash",
            Event::Timeout { .. } => "Timeout",
            Event::Log { .. } => "Log",
            Event::Heartbeat => "None",
        }
    }

    /// A log event sent by the participant itself.
    pub fn log(severity_level: u8, message: String) -> (r: Self)
        ensures
            r == (Event::Log { sender_id: 0, severity_level, message }),
    {
        Event::Log { sender_id: 0, severity_level: severity_level, message: message }
    }

    /// A statistics event sent by the participant itself.
    pub fn update_stats(executions: usize, execs_over_sec: u64) -> (r: Self)
        ensures
            r == (Event::UpdateStats { sender_id: 0, executions, execs_over_sec }),
    {
        Event::UpdateStats { sender_id: 0, executions: executions, execs_over_sec: execs_over_sec }
    }
}

/// A store of inputs that events can add to.
pub trait Corpus {
    /// The inputs held, in order of insertion.
    spec fn entries(&self) -> Seq<Seq<u8>>;

    /// Whether adding `input` to this corpus succeeds.
    spec fn accepts(&self, input: Seq<u8>) -> bool;

    /// Adds an input, and succeeds exactly when the corpus accepts it; on
    /// failure the corpus is left as it was.
    fn add(&mut self, input: Vec<u8>) -> (r: Result<(), AflError>)
        ensures
            r is Ok <==> old(self).accepts(input@),
            r is Ok ==> final(self).entries() == old(self).entries().push(input@),
            r is Err ==> final(self).entries() == old(self).entries(),
    ;

    /// The number of inputs held.
    fn count(&self) -> (r: usize)
        ensures
            r == self.entries().len(),
    ;
}

/// Accepts outgoing events and dispatches incoming ones, for any run state
/// `S` and corpus `C`.
pub trait EventManager {
    /// Whether this manager takes part in the exchange of events.
    fn enabled(&self) -> bool;

    /// Fires an event.
    fn fire<S, C: Corpus>(&mut self, event: Event, state: &mut S, corpus: &mut C) -> Result<(), AflError>;

    /// Dispatches the events that arrived since the last call, and returns
    /// their number.
    fn process<S, C: Corpus>(&mut self, state: &mut S, corpus: &mut C) -> Result<usize, AflError>;

    /// Called once an event has been integrated locally.
    fn on_recv<S, C: Corpus>(&self, state: &mut S, corpus: &mut C) -> (r: Result<(), AflError>)
        default_ensures
            r is Ok,
            *final(state) == *old(state),
            *final(corpus) == *old(corpus),
    {
        Ok(())
    }

    /// Classifies an event in the broker: a new testcase is forwarded to the
    /// clients, every other event is handled by the broker.
    fn handle_in_broker<S, C: Corpus>(&self, event: &Event, state: &mut S, corpus: &mut C) -> (r: Result<
        BrokerEventResult,
        AflError,
    >)
        ensures
            r is Ok ==> r->Ok_0 == broker_classification(*event),
        default_ensures
            r == Ok::<BrokerEventResult, AflError>(broker_classification(*event)),
            *final(state) == *old(state),
            *final(corpus) == *old(corpus),
    {
        match event {
            Event::LoadInitial { .. } => Ok(BrokerEventResult::Handled),
            Event::NewTestcase { .. } => Ok(BrokerEventResult::Forward),
            Event::UpdateStats { .. } => Ok(BrokerEventResult::Handled),
            Event::Crash { .. } => Ok(BrokerEventResult::Handled),
            Event::Timeout { .. } => Ok(BrokerEventResult::Handled),
            Event::Log { .. } => Ok(BrokerEventResult::Handled),
            Event::Heartbeat => Ok(BrokerEventResult::Handled),
        }
    }

    /// Dispatches a forwarded event in a client: a new testcase has its input
    /// added to the corpus; any other event is a protocol violation.
    fn handle_in_client<S, C: Corpus>(&self, event: Event, state: &mut S, corpus: &mut C) -> (r: Result<
        (),
        AflError,
    >)
        ensures
            !(event is NewTestcase) ==> r == Err::<(), AflError>(AflError::IllegalMessage),
        default_ensures
            !(event is NewTestcase) ==> *final(corpus) == *old(corpus),
            event is NewTestcase ==> {
                &&& r is Ok <==> old(corpus).accepts(event->NewTestcase_input@)
                &&& r is Ok ==> final(corpus).entries() == old(corpus).entries().push(
                    event->NewTestcase_input@,
                )
                &&& r is Err ==> final(corpus).entries() == old(corpus).entries()
            },
            *final(state) == *old(state),
    {
        match event {
            Event::NewTestcase { input, .. } => corpus.add(input),
            _ => Err(AflError::IllegalMessage),
        }
    }
}

/// A diagnostic line: who sent it, how severe it is, and its text.
#[derive(Clone, Debug, PartialEq, Eq)]
pub struct LogRecord {
    pub sender_id: u64,
    pub severity_level: u8,
    pub message: String,
}

/// The ASCII decimal digits of `n`, with no leading zeros.
pub open spec fn decimal(n: nat) -> Seq<u8>
    decreases n,
{
    if n < 10 {
        seq![(48 + n) as u8]
    } else {
        decimal(n / 10).push((48 + n % 10) as u8)
    }
}

/// The text line of a record, `<sender_id>[<severity_level>]: <message>`,
/// as UTF-8 bytes.
pub open spec fn log_line(r: LogRecord) -> Seq<u8> {
    decimal(r.sender_id as nat) + seq![91u8] + decimal(r.severity_level as nat) + seq![
        93u8,
        58u8,
        32u8,
    ] + encode_utf8(r.message@)
}

/// Appends the decimal digits of `n` to `out`.
fn push_decimal(out: &mut Vec<u8>, n: u64)
    ensures
        final(out)@ == old(out)@ + decimal(n as nat),
    decreases n,
{
    if n >= 10 {
        push_decimal(out, n / 10);
    }
    out.push(48u8 + (n % 10) as u8);
    proof {
        if n >= 10 {
            assert(decimal(n as nat) == decimal((n / 10) as nat).push((48 + n % 10) as u8));
            assert(final(out)@ =~= old(out)@ + decimal(n as nat));
        } else {
            assert(final(out)@ =~= old(out)@ + decimal(n as nat));
        }
    }
}

impl LogRecord {
    /// The text line that the sink writes for this record.
    pub fn line(&self) -> (r: Vec<u8>)
        ensures
            r@ == log_line(*self),
    {
        let mut out: Vec<u8> = Vec::new();
        push_decimal(&mut out, self.sender_id);
        out.push(91u8);
        push_decimal(&mut out, self.severity_level as u64);
        out.push(93u8);
        out.push(58u8);
        out.push(32u8);
        let ghost head = out@;
        let bytes = self.message.as_str().as_bytes();
        let mut i: usize = 0;
        while i < bytes.len()
            invariant
                i <= bytes@.len(),
                bytes@ == encode_utf8(self.message@),
                out@ == head + bytes@.subrange(0, i as int),
            decreases bytes@.len() - i,
        {
            out.push(bytes[i]);
            i = i + 1;
            assert(out@ =~= head + bytes@.subrange(0, i as int));
        }
        assert(bytes@.subrange(0, i as int) =~= bytes@);
        assert(out@ =~= log_line(*self));
        out
    }
}

/// A single-process manager without transport: it records log events in its
/// sink and counts the events it handled, and drops forwarded events, as there
/// are no peers to forward them to.
pub struct LoggerEventManager {
    records: Vec<LogRecord>,
    count: usize,
}

/// The handled-event count after one more event: events that the broker
/// handles are counted, saturating at the largest `usize`; forwarded events
/// are not.
pub open spec fn count_after(count: nat, e: Event) -> nat {
    if broker_classification(e) == BrokerEventResult::Handled && count < usize::MAX {
        count + 1
    } else {
        count
    }
}

/// The sink after one more event: a log event adds its record, other events
/// add nothing.
pub open spec fn sink_after(sink: Seq<LogRecord>, e: Event) -> Seq<LogRecord> {
    match e {
        Event::Log { sender_id, severity_level, message } => sink.push(
            LogRecord { sender_id, severity_level, message },
        ),
        _ => sink,
    }
}

/// The handled-event count after firing each of `events` in order.
pub open spec fn count_after_all(count: nat, events: Seq<Event>) -> nat
    decreases events.len(),
{
    if events.len() == 0 {
        count
    } else {
        count_after_all(count_after(count, events[0]), events.drop_first())
    }
}

impl LoggerEventManager {
    /// The number of handled events since the last `process`.
    pub closed spec fn handled(&self) -> nat {
        self.count as nat
    }

    /// The records written to the sink, oldest first.
    pub closed spec fn sink(&self) -> Seq<LogRecord> {
        self.records@
    }

    /// A manager with an empty sink and nothing counted.
    pub fn new() -> (r: Self)
        ensures
            r.handled() == 0,
            r.sink() == Seq::<LogRecord>::empty(),
    {
        LoggerEventManager { records: Vec::new(), count: 0 }
    }

    /// The records written to the sink, oldest first.
    pub fn records(&self) -> (r: &[LogRecord])
        ensures
            r@ == self.sink(),
    {
        self.records.as_slice()
    }

    /// Takes the records out of the sink, leaving it empty.
    pub fn take_records(&mut self) -> (r: Vec<LogRecord>)
        ensures
            r@ == old(self).sink(),
            final(self).sink() == Seq::<LogRecord>::empty(),
            final(self).handled() == old(self).handled(),
    {
        let mut taken: Vec<LogRecord> = Vec::new();
        std::mem::swap(&mut taken, &mut self.records);
        taken
    }
}

impl EventManager for LoggerEventManager {
    fn enabled(&self) -> (r: bool)
        ensures
            r,
    {
        true
    }

    /// Classifies the event; a forwarded event is dropped, a handled one is
    /// counted, and a log event is written to the sink.
    fn fire<S, C: Corpus>(&mut self, event: Event, state: &mut S, corpus: &mut C) -> (r: Result<
        (),
        AflError,
    >)
        ensures
            r is Ok,
            final(self).handled() == count_after(old(self).handled(), event),
            final(self).sink() == sink_after(old(self).sink(), event),
            *final(state) == *old(state),
            *final(corpus) == *old(corpus),
    {
        match self.handle_in_broker(&event, state, corpus) {
            Ok(BrokerEventResult::Forward) => {},
            Ok(BrokerEventResult::Handled) => {
                if self.count < usize::MAX {
                    self.count = self.count + 1;
                }
            },
            Err(e) => {
                return Err(e);
            },
        }
        match event {
            Event::Log { sender_id, severity_level, message } => {
                self.records.push(LogRecord { sender_id, severity_level, message });
            },
            _ => {},
        }
        Ok(())
    }

    /// Returns the number of events handled since the last call, and resets
    /// it to zero.
    fn process<S, C: Corpus>(&mut self, state: &mut S, corpus: &mut C) -> (r: Result<
        usize,
        AflError,
    >)
        ensures
            r == Ok::<usize, AflError>(old(self).handled() as usize),
            final(self).handled() == 0,
            final(self).sink() == old(self).sink(),
            *final(state) == *old(state),
            *final(corpus) == *old(corpus),
    {
        let c = self.count;
        self.count = 0;
        Ok(c)
    }
}

/// A corpus that keeps its inputs in memory.
pub struct InMemoryCorpus {
    inputs: Vec<Vec<u8>>,
}

impl InMemoryCorpus {
    /// An empty corpus.
    pub fn new() -> (r: Self)
        ensures
            r.entries() == Seq::<Seq<u8>>::empty(),
    {
        InMemoryCorpus { inputs: Vec::new() }
    }

    /// The input at `index`.
    pub fn get(&self, index: usize) -> (r: &Vec<u8>)
        requires
            index < self.entries().len(),
        ensures
            r@ == self.entries()[index as int],
    {
        &self.inputs[index]
    }
}

impl Corpus for InMemoryCorpus {
    closed spec fn entries(&self) -> Seq<Seq<u8>> {
        self.inputs@.map_values(|v: Vec<u8>| v@)
    }

    /// Memory takes every input.
    open spec fn accepts(&self, input: Seq<u8>) -> bool {
        true
    }

    /// Adding to memory never fails.
    fn add(&mut self, input: Vec<u8>) -> (r: Result<(), AflError>)
        ensures
            r is Ok,
    {
        self.inputs.push(input);
        proof {
            assert(self.entries() =~= old(self).entries().push(input@));
        }
        Ok(())
    }

    fn count(&self) -> (r: usize) {
        self.inputs.len()
    }
}

/// Classification is a function of the kind of an event alone: the same
/// event, or any two events of the same kind whatever their fields, are
/// classified alike.
pub proof fn classification_depends_on_kind_alone(e1: Event, e2: Event)
    requires
        event_name(e1) == event_name(e2),
    ensures
        broker_classification(e1) == broker_classification(e2),
{
    reveal_strlit("Initial");
    reveal_strlit("New Testcase");
    reveal_strlit("Stats");
    reveal_strlit("Crash");
    reveal_strlit("Timeout");
    reveal_strlit("Log");
    reveal_strlit("None");
    assert(e1 is NewTestcase <==> event_name(e1).len() == 12);
    assert(e2 is NewTestcase <==> event_name(e2).len() == 12);
}

/// An event is forwarded exactly when it is a new testcase, whatever its
/// fields hold; every other event is handled by the broker.
pub proof fn forwarded_exactly_new_testcases(e: Event)
    ensures
        broker_classification(e) == BrokerEventResult::Forward <==> e is NewTestcase,
        broker_classification(e) == BrokerEventResult::Handled <==> !(e is NewTestcase),
{
}

/// Starting from `count`, firing events that the broker handles counts each
/// of them, as long as the total stays within `usize`. On a fresh or
/// just-processed manager (count zero), `n` such fires make the next
/// `process` return `n`.
pub proof fn handled_fires_add_up(count: nat, events: Seq<Event>)
    requires
        count + events.len() <= usize::MAX,
        forall|i: int|
            0 <= i < events.len() ==> broker_classification(#[trigger] events[i])
                == BrokerEventResult::Handled,
    ensures
        count_after_all(count, events) == count + events.len(),
    decreases events.len(),
{
    if events.len() > 0 {
        let rest = events.drop_first();
        assert forall|i: int| 0 <= i < rest.len() implies broker_classification(#[trigger] rest[i])
            == BrokerEventResult::Handled by {
            assert(rest[i] == events[i + 1]);
        }
        handled_fires_add_up(count + 1, rest);
    }
}

/// Firing the events of `events` and then `e` counts as firing `e` after
/// all of `events`: one `fire` after another follows `count_after_all`.
pub proof fn count_after_all_push(count: nat, events: Seq<Event>, e: Event)
    ensures
        count_after_all(count, events.push(e)) == count_after(count_after_all(count, events), e),
    decreases events.len(),
{
    if events.len() > 0 {
        assert(events.push(e)[0] == events[0]);
        assert(events.push(e).drop_first() =~= events.drop_first().push(e));
        count_after_all_push(count_after(count, events[0]), events.drop_first(), e);
    } else {
        assert(events.push(e)[0] == e);
        assert(events.push(e).drop_first() =~= Seq::<Event>::empty());
        assert(count_after_all(count_after(count, e), Seq::<Event>::empty()) == count_after(count, e));
    }
}

} // verus!
