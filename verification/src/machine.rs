//! Consuming an XML event stream with a state machine.
//!
//! Each part of a DOCX file is read by a machine that looks at one event at a time and
//! either goes on, stops (at the end of the stream) or fails.  The drivers here feed a
//! machine from a quick-xml reader or from a sequence of events that are already known.
use vstd::prelude::*;
use crate::xml::{item_fits, reader_ready, xml_events, xml_next, xml_pending, xml_reader, XmlEvent, XmlItem};

verus! {

/// What a machine does with one event (mathematical view).
pub enum Step<S> {
    Next(S),
    Stop(S),
    /// Failure: the state when it happened, and the message.
    Fail(S, Seq<char>),
}

/// Where a run of a machine over a sequence of events ends: the last state, and the
/// message of the failure that stopped it, if one did.
pub struct RunResult<S> {
    pub state: S,
    pub failure: Option<Seq<char>>,
}

/// What a machine does with one event.
pub enum Flow {
    Continue,
    Finish,
    Abort(String),
}

pub open spec fn flow_step<S>(f: Flow, s: S) -> Step<S> {
    match f {
        Flow::Continue => Step::Next(s),
        Flow::Finish => Step::Stop(s),
        Flow::Abort(m) => Step::Fail(s, m@),
    }
}

pub trait EventMachine: View + Sized {
    /// The effect of one event on the state.
    spec fn step_spec(s: Self::V, ev: XmlItem) -> Step<Self::V>;

    /// The end of the stream stops every machine.
    proof fn lemma_eof_stops(s: Self::V)
        ensures
            Self::step_spec(s, XmlItem::Eof) is Stop,
    ;

    fn step(&mut self, ev: &XmlEvent) -> (f: Flow)
        requires
            item_fits(ev@),
        ensures
            Self::step_spec(old(self)@, ev@) == flow_step(f, final(self)@),
    ;
}

/// The state after a machine has consumed `events` from state `s`, with the message of
/// the failure that stopped it, if one did.  Reaching the end of the sequence stops it too.
pub open spec fn machine_run<M: EventMachine>(s: M::V, events: Seq<XmlItem>) -> RunResult<M::V>
    decreases events.len(),
{
    if events.len() == 0 {
        RunResult { state: s, failure: None }
    } else {
        match M::step_spec(s, events[0]) {
            Step::Next(s2) => machine_run::<M>(s2, events.drop_first()),
            Step::Stop(s2) => RunResult { state: s2, failure: None },
            Step::Fail(s2, m) => RunResult { state: s2, failure: Some(m) },
        }
    }
}

/// The outcome of a driver: the machine's state, and the message of a failure.
pub open spec fn run_view<S>(r: Result<(), String>, s: S) -> RunResult<S> {
    RunResult {
        state: s,
        failure: match r {
            Ok(_) => None,
            Err(e) => Some(e@),
        },
    }
}

/// Feeds `m` the events of `xml` as quick-xml reads them, until it stops or fails.
pub fn run_on_xml<M: EventMachine>(m: &mut M, xml: &str) -> (r: Result<(), String>)
    ensures
        machine_run::<M>(old(m)@, xml_events(xml@)) == run_view(r, final(m)@),
{
    let mut reader = xml_reader(xml);
    loop
        invariant
            reader_ready(reader),
            machine_run::<M>(old(m)@, xml_events(xml@)) == machine_run::<M>(m@, xml_pending(reader)),
        decreases xml_pending(reader).len(),
    {
        let ghost pending = xml_pending(reader);
        let ghost before = m@;
        let ev = xml_next(&mut reader);
        match m.step(&ev) {
            Flow::Continue => {
                proof {
                    M::lemma_eof_stops(before);
                    if pending.len() == 1 {
                        assert(pending[0] == pending.last());
                    }
                }
                assert(xml_pending(reader) == pending.drop_first());
            },
            Flow::Finish => {
                return Ok(());
            },
            Flow::Abort(e) => {
                return Err(e);
            },
        }
    }
}

/// Feeds `m` the given events in order, until it stops, fails, or the events run out.
/// The name of each tag must lie within the tag's text, as it does for the events a
/// reader delivers.
pub fn run_on_events<M: EventMachine>(m: &mut M, events: &[XmlEvent]) -> (r: Result<(), String>)
    requires
        forall|i: int| 0 <= i < events@.len() ==> item_fits(#[trigger] events@[i]@),
    ensures
        machine_run::<M>(old(m)@, events@.map_values(|e: XmlEvent| e@)) == run_view(r, final(m)@),
{
    let ghost all = events@.map_values(|e: XmlEvent| e@);
    let mut i: usize = 0;
    assert(all.skip(0) =~= all);
    while i < events.len()
        invariant
            i <= events.len(),
            all == events@.map_values(|e: XmlEvent| e@),
            forall|k: int| 0 <= k < events@.len() ==> item_fits(#[trigger] events@[k]@),
            machine_run::<M>(old(m)@, all) == machine_run::<M>(m@, all.skip(i as int)),
        decreases events.len() - i,
    {
        assert(all.skip(i as int)[0] == events@[i as int]@);
        assert(all.skip(i as int).drop_first() =~= all.skip(i + 1));
        match m.step(&events[i]) {
            Flow::Continue => {},
            Flow::Finish => {
                return Ok(());
            },
            Flow::Abort(e) => {
                return Err(e);
            },
        }
        i = i + 1;
    }
    assert(all.skip(i as int).len() == 0);
    Ok(())
}

} // verus!
