//! Events the W65C816 reports while it runs, and those who receive them.
use vstd::prelude::*;

verus! {

/// An event reported by the CPU.
#[derive(Debug)]
pub enum Event {
    /// An instruction is about to run at `pbr:pc`.
    Exec {
        pbr: u8,
        pc: u16,
        instruction: String,
        operands: String,
    },
}

/// What an event says: where, which instruction and with which operand text.
pub type EventView = (u8, u16, Seq<char>, Seq<char>);

impl View for Event {
    type V = EventView;

    open spec fn view(&self) -> EventView {
        match self {
            Event::Exec { pbr, pc, instruction, operands } => (*pbr, *pc, instruction@, operands@),
        }
    }
}

/// A receiver of the events of the CPU.
///
/// Each reporter chooses what it keeps of the events (`Log`) and says how a report changes it.
pub trait Reporter {
    /// What the reporter keeps of the events.
    type Log;

    /// What the reporter has kept so far.
    spec fn log(&self) -> Self::Log;

    /// What the reporter keeps after it receives an event.
    spec fn logged(l: Self::Log, e: EventView) -> Self::Log;

    /// Receives an event.
    fn report(&mut self, event: Event)
        ensures
            final(self).log() == Self::logged(old(self).log(), event@),
    ;
}

/// A reporter that drops every event.
pub struct NullReporter;

impl Reporter for NullReporter {
    type Log = ();

    open spec fn log(&self) -> () {
        ()
    }

    open spec fn logged(l: (), e: EventView) -> () {
        ()
    }

    fn report(&mut self, _event: Event) {
    }
}

/// A reporter that keeps the last event.
pub struct Retain {
    last: Option<Event>,
}

impl Retain {
    /// A reporter that has received nothing yet.
    pub fn new() -> (r: Retain)
        ensures
            r.log() is None,
    {
        Retain { last: None }
    }

    /// The last event received, if any.
    pub fn last(&self) -> (r: &Option<Event>)
        ensures
            (match r {
                Some(e) => self.log() == Some(e@),
                None => self.log() is None,
            }),
    {
        &self.last
    }
}

impl Reporter for Retain {
    type Log = Option<EventView>;

    closed spec fn log(&self) -> Option<EventView> {
        match self.last {
            Some(e) => Some(e@),
            None => None,
        }
    }

    open spec fn logged(l: Option<EventView>, e: EventView) -> Option<EventView> {
        Some(e)
    }

    fn report(&mut self, event: Event) {
        self.last = Some(event);
    }
}

} // verus!
