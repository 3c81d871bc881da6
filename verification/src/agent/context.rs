use crate::agent::event::{Event, EventModel, fresh_id};
use vstd::prelude::*;

verus! {

/// The state of one run: its id, what happened, and how many tool rounds it took.
#[derive(Clone, Debug)]
pub struct Context {
    pub execution_id: String,
    pub event: Vec<Event>,
    pub current_step: usize,
    pub result: Option<String>,
}

/// The mathematical value of a [`Context`].
pub struct ContextModel {
    pub execution_id: Seq<char>,
    pub events: Seq<EventModel>,
    pub current_step: nat,
    pub result: Option<Seq<char>>,
}

impl View for Context {
    type V = ContextModel;

    open spec fn view(&self) -> ContextModel {
        ContextModel {
            execution_id: self.execution_id@,
            events: self.event@.map_values(|e: Event| e@),
            current_step: self.current_step as nat,
            result: match self.result {
                Some(s) => Some(s@),
                None => None,
            },
        }
    }
}

impl Context {
    /// A fresh context: a new random id, no events, step 0, no result.
    pub fn new() -> (c: Context)
        ensures
            c@.execution_id.len() == 36,
            c@.events == Seq::<EventModel>::empty(),
            c@.current_step == 0,
            c@.result is None,
    {
        let c = Context { execution_id: fresh_id(), event: Vec::new(), current_step: 0, result: None };
        assert(c@.events =~= Seq::<EventModel>::empty());
        c
    }

    /// Appends an event.
    pub fn add_event(&mut self, event: Event)
        ensures
            final(self)@ == (ContextModel { events: old(self)@.events.push(event@), ..old(self)@ }),
    {
        self.event.push(event);
        assert(self@.events =~= old(self)@.events.push(event@));
    }

    /// Counts one more step.
    pub fn increment_step(&mut self)
        requires
            old(self).current_step < usize::MAX,
        ensures
            final(self)@ == (ContextModel { current_step: old(self)@.current_step + 1, ..old(self)@ }),
    {
        self.current_step += 1;
    }
}

impl Default for Context {
    fn default() -> (c: Context)
        ensures
            c@.execution_id.len() == 36,
            c@.events == Seq::<EventModel>::empty(),
            c@.current_step == 0,
            c@.result is None,
    {
        Context::new()
    }
}

} // verus!
