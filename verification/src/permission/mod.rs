//! Bookkeeping of tool-call permissions.
//!
//! A request is identified by a key built from the tool call's id, tool name and
//! arguments. Lasting answers (`Denied`, `GrantedAlways`) are remembered per key;
//! a `GrantedAlways` answer also grants the whole tool. Requests that need an
//! answer are queued, each key at most once, and handed out one at a time to
//! whoever asks the user. The waiting itself (channels, timeouts) belongs to the
//! caller: this module decides, the caller performs.

pub mod laws;

use crate::permission::laws::lemma_operations_keep_well_formed;
use crate::modals::permission_input::{
    EntryModel, PermissionEntry, PermissionInput, PermissionMode, PermissionResult,
};
use crate::modals::tool::{ToolView, ToolViewModel};
use vstd::hash_map::StringHashMap;
use vstd::prelude::*;
use std::collections::VecDeque;

verus! {

/// Answers that are remembered for later requests with the same key.
pub open spec fn is_lasting(r: PermissionResult) -> bool {
    r == PermissionResult::Denied || r == PermissionResult::GrantedAlways
}

/// The key of a permission request.
pub open spec fn spec_key(tv: ToolViewModel) -> Seq<char> {
    "id: "@ + tv.tool_call_id + ", tool name: "@ + tv.name + ", arguments: "@ + tv.arguments
}

/// Builds the key of a permission request.
pub fn permission_key(tool_view: &ToolView) -> (key: String)
    ensures
        key@ == spec_key(tool_view@),
{
    let mut key = String::from_str("id: ");
    key.append(tool_view.tool_call_id.as_str());
    key.append(", tool name: ");
    key.append(tool_view.name.as_str());
    key.append(", arguments: ");
    key.append(tool_view.arguments.as_str());
    key
}

/// The abstract state of a [`Permission`].
pub struct PermissionModel {
    pub mode: PermissionMode,
    /// Requests waiting for an answer, oldest first.
    pub queue: Seq<EntryModel>,
    /// Remembered answers, by request key or by tool name.
    pub decisions: Map<Seq<char>, PermissionResult>,
}

/// Whether some queued request has the given key.
pub open spec fn queue_has_key(queue: Seq<EntryModel>, key: Seq<char>) -> bool {
    exists|i: int| 0 <= i < queue.len() && (#[trigger] queue[i]).key == key
}

/// The queue holds each key at most once, and each entry's key is the key of its tool call.
pub open spec fn well_formed(m: PermissionModel) -> bool {
    &&& forall|i: int, j: int|
        0 <= i < j < m.queue.len() ==> (#[trigger] m.queue[i]).key != (#[trigger] m.queue[j]).key
    &&& forall|i: int| 0 <= i < m.queue.len() ==> (#[trigger] m.queue[i]).key == spec_key(m.queue[i].tool_view)
}

/// Whether the tool of the given name has been granted for good.
pub open spec fn tool_always_granted(decisions: Map<Seq<char>, PermissionResult>, name: Seq<char>) -> bool {
    decisions.contains_key(name) && decisions[name] == PermissionResult::GrantedAlways
}

/// The start of a query: either an immediate answer (`Some`) or, with `None`,
/// a request that waits for its answer.
pub open spec fn query_begin_spec(m: PermissionModel, tv: ToolViewModel) -> (PermissionModel, Option<PermissionResult>) {
    match m.mode {
        PermissionMode::AutoApprove => (m, Some(PermissionResult::GrantedAlways)),
        PermissionMode::AutoDeny => (m, Some(PermissionResult::Denied)),
        PermissionMode::Interactive => {
            let key = spec_key(tv);
            if m.decisions.contains_key(key) && is_lasting(m.decisions[key]) {
                (m, Some(m.decisions[key]))
            } else {
                let decisions = m.decisions.remove(key);
                if tool_always_granted(decisions, tv.name) {
                    (PermissionModel { decisions, ..m }, Some(PermissionResult::GrantedAlways))
                } else {
                    let queue = if queue_has_key(m.queue, key) {
                        m.queue
                    } else {
                        m.queue.push(EntryModel { key, tool_view: tv })
                    };
                    (PermissionModel { mode: m.mode, queue, decisions }, None)
                }
            }
        },
    }
}

/// What the next queued request calls for.
pub enum StepModel {
    Idle,
    Replied(Seq<char>, PermissionResult),
    Ask(EntryModel),
}

/// One step of serving the queue: the oldest request is answered at once when
/// its tool is granted for good, and otherwise handed out to be asked.
pub open spec fn next_step_spec(m: PermissionModel) -> (PermissionModel, StepModel) {
    if m.queue.len() == 0 {
        (m, StepModel::Idle)
    } else {
        let entry = m.queue[0];
        let rest = PermissionModel { queue: m.queue.drop_first(), ..m };
        if tool_always_granted(m.decisions, entry.tool_view.name) {
            (rest, StepModel::Replied(entry.key, PermissionResult::GrantedAlways))
        } else {
            (rest, StepModel::Ask(entry))
        }
    }
}

/// The answer to a handed-out request: `None` when no answer came in time.
/// The answer is remembered under the request key, and a `GrantedAlways`
/// answer under the tool's name as well.
pub open spec fn record_answer_spec(m: PermissionModel, entry: EntryModel, answer: Option<PermissionResult>) -> (PermissionModel, PermissionResult) {
    let result = match answer {
        Some(r) => r,
        None => PermissionResult::Timeout,
    };
    let decisions = if result == PermissionResult::GrantedAlways {
        m.decisions.insert(entry.tool_view.name, PermissionResult::GrantedAlways)
    } else {
        m.decisions
    };
    (PermissionModel { decisions: decisions.insert(entry.key, result), ..m }, result)
}

/// The end of a query that waited: `None` when the answer never arrived.
/// A passing answer is forgotten so that the next request asks again.
pub open spec fn query_finish_spec(m: PermissionModel, key: Seq<char>, received: Option<PermissionResult>) -> (PermissionModel, PermissionResult) {
    match received {
        None => (m, PermissionResult::Timeout),
        Some(r) => if is_lasting(r) {
            (m, r)
        } else {
            (PermissionModel { decisions: m.decisions.remove(key), ..m }, r)
        },
    }
}

/// Serves the whole queue, giving the asked requests the `answers` in order;
/// `received` is what has reached the request `key` so far.
pub open spec fn serve_spec(
    m: PermissionModel,
    answers: Seq<PermissionResult>,
    key: Seq<char>,
    received: Option<PermissionResult>,
) -> (PermissionModel, Option<PermissionResult>)
    decreases m.queue.len(),
{
    if m.queue.len() == 0 {
        (m, received)
    } else {
        let (m1, step) = next_step_spec(m);
        match step {
            StepModel::Replied(k, res) => serve_spec(m1, answers, key, if k == key { Some(res) } else { received }),
            StepModel::Ask(e) => {
                let (m2, res) = record_answer_spec(m1, e, Some(answers[0]));
                serve_spec(m2, answers.drop_first(), key, if e.key == key { Some(res) } else { received })
            },
            StepModel::Idle => (m, received),
        }
    }
}

/// A whole query whose asked requests get the `answers` in order: it starts,
/// serves the queue, and ends with what reached its own request.
pub open spec fn served_query_spec(m: PermissionModel, tv: ToolViewModel, answers: Seq<PermissionResult>) -> (PermissionModel, PermissionResult) {
    let key = spec_key(tv);
    let (served, received) = serve_spec(query_begin_spec(m, tv).0, answers, key, None);
    query_finish_spec(served, key, received)
}

/// The requests that serving the queue asks, in order, when the asked requests
/// get the `answers` in order.
pub open spec fn asked_entries_spec(m: PermissionModel, answers: Seq<PermissionResult>) -> Seq<EntryModel>
    decreases m.queue.len(),
{
    if m.queue.len() == 0 {
        Seq::empty()
    } else {
        let (m1, step) = next_step_spec(m);
        match step {
            StepModel::Replied(_, _) => asked_entries_spec(m1, answers),
            StepModel::Ask(e) => seq![e] + asked_entries_spec(
                record_answer_spec(m1, e, Some(answers[0])).0,
                answers.drop_first(),
            ),
            StepModel::Idle => Seq::empty(),
        }
    }
}

/// The input, going through the `states` in turn, gave `answers[i]` to the
/// request `entries[i]`, as far as its own promise about its answers goes.
pub open spec fn input_gave<I: PermissionInput>(
    states: Seq<I>,
    entries: Seq<EntryModel>,
    answers: Seq<PermissionResult>,
) -> bool {
    &&& states.len() == answers.len() + 1
    &&& entries.len() == answers.len()
    &&& forall|i: int| 0 <= i < answers.len() ==> #[trigger] states[i].gives(entries[i], answers[i], &states[i + 1])
}

/// A query that waits, started on an empty queue, whose request is answered
/// `answer`: the only request is asked once and its answer recorded.
pub open spec fn asked_once_spec(m: PermissionModel, tv: ToolViewModel, answer: PermissionResult) -> PermissionModel {
    let begun = query_begin_spec(m, tv).0;
    let popped = next_step_spec(begun).0;
    record_answer_spec(popped, EntryModel { key: spec_key(tv), tool_view: tv }, Some(answer)).0
}

/// The start of a query.
pub enum QueryStart {
    /// Answered at once.
    Decided(PermissionResult),
    /// Waits for the answer to the request with this key.
    Pending(String),
}

impl QueryStart {
    pub open spec fn decision(self) -> Option<PermissionResult> {
        match self {
            QueryStart::Decided(r) => Some(r),
            QueryStart::Pending(_) => None,
        }
    }
}

/// The next thing to do for the queue.
pub enum ExecuteStep {
    /// Nothing is queued.
    Idle,
    /// Send `result` to everyone waiting on `key`.
    Replied { key: String, result: PermissionResult },
    /// Ask for an answer to this request, then report it with `record_answer`.
    Ask(PermissionEntry),
}

impl View for ExecuteStep {
    type V = StepModel;

    open spec fn view(&self) -> StepModel {
        match self {
            ExecuteStep::Idle => StepModel::Idle,
            ExecuteStep::Replied { key, result } => StepModel::Replied(key@, *result),
            ExecuteStep::Ask(entry) => StepModel::Ask(entry@),
        }
    }
}

/// The bookkeeping behind a permission mode.
pub struct PermissionState {
    queue: VecDeque<PermissionEntry>,
    map: StringHashMap<PermissionResult>,
}

/// Decides tool-call permissions.
pub struct Permission {
    mode: PermissionMode,
    state: PermissionState,
}

impl View for Permission {
    type V = PermissionModel;

    closed spec fn view(&self) -> PermissionModel {
        PermissionModel {
            mode: self.mode,
            queue: self.state.queue@.map_values(|e: PermissionEntry| e@),
            decisions: self.state.map@,
        }
    }
}

impl Permission {
    /// An empty bookkeeping for the given mode.
    pub fn new(mode: PermissionMode) -> (p: Permission)
        ensures
            p@.mode == mode,
            p@.queue == Seq::<EntryModel>::empty(),
            p@.decisions == Map::<Seq<char>, PermissionResult>::empty(),
            well_formed(p@),
    {
        let p = Permission {
            mode,
            state: PermissionState { queue: VecDeque::new(), map: StringHashMap::new() },
        };
        assert(p@.queue =~= Seq::<EntryModel>::empty());
        p
    }

    /// The mode answers are given in.
    pub fn mode(&self) -> (m: PermissionMode)
        ensures
            m == self@.mode,
    {
        self.mode
    }

    /// Forgets every queued request and every remembered answer.
    pub fn reset(&mut self)
        ensures
            final(self)@.mode == old(self)@.mode,
            final(self)@.queue == Seq::<EntryModel>::empty(),
            final(self)@.decisions == Map::<Seq<char>, PermissionResult>::empty(),
            well_formed(final(self)@),
    {
        self.state.queue.clear();
        self.state.map.clear();
        assert(self@.queue =~= Seq::<EntryModel>::empty());
    }

    fn queue_contains(&self, key: &String) -> (b: bool)
        ensures
            b == queue_has_key(self@.queue, key@),
    {
        let n = self.state.queue.len();
        let mut i: usize = 0;
        while i < n
            invariant
                n == self.state.queue@.len(),
                i <= n,
                forall|k: int| 0 <= k < i ==> self.state.queue@[k].key@ != key@,
            decreases n - i,
        {
            if self.state.queue[i].key == *key {
                assert(self@.queue[i as int].key == key@);
                return true;
            }
            i = i + 1;
        }
        proof {
            if queue_has_key(self@.queue, key@) {
                let k = choose|k: int| 0 <= k < self@.queue.len() && (#[trigger] self@.queue[k]).key == key@;
                assert(self.state.queue@[k].key@ == key@);
            }
        }
        false
    }

    /// Starts a query for a tool call: answers at once when the mode, a
    /// remembered answer for the same request, or a grant of the whole tool
    /// decides; otherwise queues the request (once per key) and returns its key.
    pub fn query_begin(&mut self, tool_view: &ToolView) -> (r: QueryStart)
        ensures
            (final(self)@, r.decision()) == query_begin_spec(old(self)@, tool_view@),
            r matches QueryStart::Pending(key) ==> key@ == spec_key(tool_view@),
            well_formed(old(self)@) ==> well_formed(final(self)@),
    {
        proof {
            if well_formed(self@) {
                lemma_operations_keep_well_formed(self@, tool_view@, arbitrary(), None, Seq::empty(), None);
            }
        }
        match self.mode {
            PermissionMode::AutoApprove => {
                return QueryStart::Decided(PermissionResult::GrantedAlways);
            },
            PermissionMode::AutoDeny => {
                return QueryStart::Decided(PermissionResult::Denied);
            },
            PermissionMode::Interactive => {},
        }
        let key = permission_key(tool_view);
        let known = match self.state.map.get(key.as_str()) {
            Some(r) => Some(*r),
            None => None,
        };
        if let Some(r) = known {
            if r == PermissionResult::Denied || r == PermissionResult::GrantedAlways {
                return QueryStart::Decided(r);
            }
        }
        self.state.map.remove(key.as_str());
        let always = match self.state.map.get(tool_view.name.as_str()) {
            Some(r) => *r == PermissionResult::GrantedAlways,
            None => false,
        };
        if always {
            return QueryStart::Decided(PermissionResult::GrantedAlways);
        }
        let ghost old_queue = self@.queue;
        if !self.queue_contains(&key) {
            let entry = PermissionEntry { key: key.clone(), tool_view: tool_view.clone() };
            self.state.queue.push_back(entry);
            assert(self@.queue =~= old_queue.push(EntryModel { key: key@, tool_view: tool_view@ }));
        }
        QueryStart::Pending(key)
    }

    /// Takes the oldest queued request: answers it at once when its tool has
    /// been granted for good, otherwise hands it out to be asked.
    pub fn next_step(&mut self) -> (r: ExecuteStep)
        ensures
            (final(self)@, r@) == next_step_spec(old(self)@),
            well_formed(old(self)@) ==> well_formed(final(self)@),
    {
        proof {
            if well_formed(self@) {
                lemma_operations_keep_well_formed(self@, arbitrary(), arbitrary(), None, Seq::empty(), None);
            }
        }
        let ghost old_queue = self.state.queue@;
        match self.state.queue.pop_front() {
            None => ExecuteStep::Idle,
            Some(entry) => {
                assert(self@.queue =~= old(self)@.queue.drop_first());
                assert(entry@ == old(self)@.queue[0]);
                let always = match self.state.map.get(entry.tool_view.name.as_str()) {
                    Some(r) => *r == PermissionResult::GrantedAlways,
                    None => false,
                };
                if always {
                    ExecuteStep::Replied { key: entry.key, result: PermissionResult::GrantedAlways }
                } else {
                    ExecuteStep::Ask(entry)
                }
            },
        }
    }

    /// Records the answer to a handed-out request (`None`: no answer in time)
    /// and returns the result to send to everyone waiting on its key.
    pub fn record_answer(&mut self, entry: &PermissionEntry, answer: Option<PermissionResult>) -> (r: PermissionResult)
        ensures
            (final(self)@, r) == record_answer_spec(old(self)@, entry@, answer),
            well_formed(old(self)@) ==> well_formed(final(self)@),
    {
        proof {
            if well_formed(self@) {
                lemma_operations_keep_well_formed(self@, arbitrary(), entry@, answer, Seq::empty(), None);
            }
        }
        let result = match answer {
            Some(r) => r,
            None => PermissionResult::Timeout,
        };
        if result == PermissionResult::GrantedAlways {
            self.state.map.insert(entry.tool_view.name.clone(), PermissionResult::GrantedAlways);
        }
        self.state.map.insert(entry.key.clone(), result);
        result
    }

    /// Ends a query that waited on `key` (`None`: the answer never arrived).
    pub fn query_finish(&mut self, key: &str, received: Option<PermissionResult>) -> (r: PermissionResult)
        ensures
            (final(self)@, r) == query_finish_spec(old(self)@, key@, received),
            well_formed(old(self)@) ==> well_formed(final(self)@),
    {
        proof {
            if well_formed(self@) {
                lemma_operations_keep_well_formed(self@, arbitrary(), arbitrary(), None, key@, received);
            }
        }
        match received {
            None => PermissionResult::Timeout,
            Some(r) => {
                if r == PermissionResult::Denied || r == PermissionResult::GrantedAlways {
                    r
                } else {
                    self.state.map.remove(key);
                    r
                }
            },
        }
    }

    /// Runs a whole query with an input that answers right away: starts it,
    /// serves the queue (asking `input` for every request that needs an
    /// answer), and ends it with the answer that reached this request. The
    /// answers are those `input` gave, each within what its `gives` promises.
    pub fn query<I: PermissionInput>(&mut self, tool_view: &ToolView, input: &mut I) -> (r: PermissionResult)
        ensures
            query_begin_spec(old(self)@, tool_view@).1 matches Some(d) ==> {
                &&& r == d
                &&& final(self)@ == query_begin_spec(old(self)@, tool_view@).0
                &&& *final(input) == *old(input)
            },
            query_begin_spec(old(self)@, tool_view@).1 is None ==> {
                &&& final(self)@.mode == old(self)@.mode
                &&& final(self)@.queue.len() == 0
                &&& (r == PermissionResult::GrantedOnce || r == PermissionResult::NoInput)
                    ==> !final(self)@.decisions.contains_key(spec_key(tool_view@))
                &&& exists|answers: Seq<PermissionResult>, states: Seq<I>| {
                    &&& states[0] == *old(input)
                    &&& states.last() == *final(input)
                    &&& #[trigger] input_gave(
                        states,
                        asked_entries_spec(query_begin_spec(old(self)@, tool_view@).0, answers),
                        answers,
                    )
                    &&& (final(self)@, r) == served_query_spec(old(self)@, tool_view@, answers)
                }
            },
            query_begin_spec(old(self)@, tool_view@).1 is None && old(self)@.queue.len() == 0 ==> {
                &&& old(input).gives((EntryModel { key: spec_key(tool_view@), tool_view: tool_view@ }), r, final(input))
                &&& final(self)@ == query_finish_spec(
                    asked_once_spec(old(self)@, tool_view@, r),
                    spec_key(tool_view@),
                    Some(r),
                ).0
                &&& is_lasting(r) ==> query_begin_spec(final(self)@, tool_view@) == (final(self)@, Some(r))
                &&& !is_lasting(r) ==> query_begin_spec(final(self)@, tool_view@).1 is None
            },
            well_formed(old(self)@) ==> well_formed(final(self)@),
    {
        let key = match self.query_begin(tool_view) {
            QueryStart::Decided(r) => {
                return r;
            },
            QueryStart::Pending(key) => key,
        };
        let ghost begun = self@;
        let ghost k = spec_key(tool_view@);
        assert(self@.mode == old(self)@.mode);
        let ghost mode = self@.mode;
        let ghost started_well_formed = well_formed(old(self)@);
        let ghost started_empty = old(self)@.queue.len() == 0;
        let ghost entry_model = EntryModel { key: k, tool_view: tool_view@ };
        proof {
            if started_empty {
                assert(!queue_has_key(old(self)@.queue, k));
                assert(begun.queue =~= seq![entry_model]);
            }
        }
        let ghost mut asked: Seq<PermissionResult> = Seq::empty();
        let ghost mut answer: PermissionResult = PermissionResult::NoInput;
        let ghost start_input: I = *input;
        let ghost mut states: Seq<I> = seq![*input];
        let ghost mut entries: Seq<EntryModel> = Seq::empty();
        let mut received: Option<PermissionResult> = None;
        assert forall|rest: Seq<PermissionResult>|
            #[trigger] serve_spec(begun, asked + rest, k, None) == serve_spec(self@, rest, k, received) by {
            assert(asked + rest =~= rest);
        }
        assert forall|rest: Seq<PermissionResult>|
            #[trigger] asked_entries_spec(begun, asked + rest) == entries + asked_entries_spec(self@, rest) by {
            assert(asked + rest =~= rest);
            assert(entries + asked_entries_spec(self@, rest) =~= asked_entries_spec(self@, rest));
        }
        loop
            invariant
                self@.mode == mode,
                started_well_formed ==> well_formed(self@),
                key@ == k,
                k == spec_key(tool_view@),
                entry_model == (EntryModel { key: k, tool_view: tool_view@ }),
                started_empty == (old(self)@.queue.len() == 0),
                forall|rest: Seq<PermissionResult>|
                    #[trigger] serve_spec(begun, asked + rest, k, None) == serve_spec(self@, rest, k, received),
                forall|rest: Seq<PermissionResult>|
                    #[trigger] asked_entries_spec(begun, asked + rest) == entries + asked_entries_spec(self@, rest),
                input_gave(states, entries, asked),
                states[0] == start_input,
                states.last() == *input,
                start_input == *old(input),
                started_empty ==> {
                    ||| received is None && self@ == begun && begun.queue == seq![entry_model] && asked.len() == 0
                    ||| received == Some(answer) && self@ == asked_once_spec(old(self)@, tool_view@, answer)
                        && self@.queue.len() == 0 && asked == seq![answer] && entries == seq![entry_model]
                },
                started_empty ==> begun == query_begin_spec(old(self)@, tool_view@).0,
                started_empty ==> !tool_always_granted(begun.decisions, tool_view@.name),
            ensures
                self@.mode == mode,
                self@.queue.len() == 0,
                started_well_formed ==> well_formed(self@),
                serve_spec(begun, asked, k, None) == (self@, received),
                asked_entries_spec(begun, asked) == entries,
                input_gave(states, entries, asked),
                states[0] == start_input,
                states.last() == *input,
                start_input == *old(input),
                started_empty ==> received == Some(answer) && self@ == asked_once_spec(old(self)@, tool_view@, answer)
                    && asked == seq![answer] && entries == seq![entry_model],
            decreases self@.queue.len(),
        {
            let ghost before = self@;
            match self.next_step() {
                ExecuteStep::Idle => {
                    assert(serve_spec(begun, asked + Seq::empty(), k, None) == serve_spec(self@, Seq::empty(), k, received));
                    assert(asked_entries_spec(begun, asked + Seq::empty()) == entries + asked_entries_spec(self@, Seq::empty()));
                    assert(asked + Seq::<PermissionResult>::empty() =~= asked);
                    assert(entries + Seq::<EntryModel>::empty() =~= entries);
                    break;
                },
                ExecuteStep::Replied { key: replied, result } => {
                    let ghost old_received = received;
                    proof {
                        if started_empty {
                            if old_received is None {
                                assert(begun.queue[0] == entry_model);
                            } else {
                                assert(before.queue.len() == 0);
                            }
                            assert(false);
                        }
                    }
                    if replied == key {
                        received = Some(result);
                    }
                    assert forall|rest: Seq<PermissionResult>|
                        #[trigger] serve_spec(begun, asked + rest, k, None) == serve_spec(self@, rest, k, received) by {
                        assert(serve_spec(begun, asked + rest, k, None) == serve_spec(before, rest, k, old_received));
                    }
                    assert forall|rest: Seq<PermissionResult>|
                        #[trigger] asked_entries_spec(begun, asked + rest) == entries + asked_entries_spec(self@, rest) by {
                        assert(asked_entries_spec(begun, asked + rest) == entries + asked_entries_spec(before, rest));
                    }
                },
                ExecuteStep::Ask(entry) => {
                    let ghost old_received = received;
                    let ghost input_before: I = *input;
                    let given = input.ask(&entry);
                    let result = self.record_answer(&entry, Some(given));
                    if entry.key == key {
                        received = Some(result);
                    }
                    proof {
                        let old_asked = asked;
                        let old_entries = entries;
                        let old_states = states;
                        asked = asked.push(given);
                        entries = entries.push(entry@);
                        states = states.push(*input);
                        assert(input_before.gives(entry@, given, input));
                        assert forall|i: int| 0 <= i < asked.len() implies #[trigger] states[i].gives(
                            entries[i],
                            asked[i],
                            &states[i + 1],
                        ) by {
                            if i < old_asked.len() {
                                assert(states[i] == old_states[i]);
                                assert(states[i + 1] == old_states[i + 1]);
                                assert(entries[i] == old_entries[i]);
                                assert(asked[i] == old_asked[i]);
                                assert(old_states[i].gives(old_entries[i], old_asked[i], &old_states[i + 1]));
                            }
                        }
                        assert forall|rest: Seq<PermissionResult>|
                            #[trigger] serve_spec(begun, asked + rest, k, None) == serve_spec(self@, rest, k, received) by {
                            let longer = seq![given] + rest;
                            assert(old_asked + longer =~= asked + rest);
                            assert(serve_spec(begun, old_asked + longer, k, None) == serve_spec(before, longer, k, old_received));
                            assert(longer[0] == given);
                            assert(longer.drop_first() =~= rest);
                        }
                        assert forall|rest: Seq<PermissionResult>|
                            #[trigger] asked_entries_spec(begun, asked + rest) == entries + asked_entries_spec(self@, rest) by {
                            let longer = seq![given] + rest;
                            assert(old_asked + longer =~= asked + rest);
                            assert(asked_entries_spec(begun, old_asked + longer) == old_entries + asked_entries_spec(before, longer));
                            assert(longer[0] == given);
                            assert(longer.drop_first() =~= rest);
                            assert(old_entries + (seq![entry@] + asked_entries_spec(self@, rest)) =~= entries + asked_entries_spec(self@, rest));
                        }
                        if started_empty {
                            answer = given;
                            if old_received is Some {
                                assert(before.queue.len() == 0);
                                assert(false);
                            }
                            assert(begun.queue[0] == entry_model);
                            assert(entry@ == entry_model);
                        }
                    }
                },
            }
        }
        let r = self.query_finish(key.as_str(), received);
        proof {
            assert((self@, r) == served_query_spec(old(self)@, tool_view@, asked));
            assert(begun == query_begin_spec(old(self)@, tool_view@).0);
            assert(input_gave(states, asked_entries_spec(query_begin_spec(old(self)@, tool_view@).0, asked), asked));
            if started_empty {
                let m1 = next_step_spec(begun).0;
                assert(m1.queue.len() == 0);
                assert(m1.mode == PermissionMode::Interactive);
                assert(r == answer);
                assert(states[0].gives(entries[0], asked[0], &states[1]));
                crate::permission::laws::lemma_key_is_not_a_tool_name(tool_view@, tool_view@.name);
                if is_lasting(r) {
                    crate::permission::laws::lemma_lasting_answer_is_reused(m1, entry_model, answer, tool_view@);
                } else {
                    crate::permission::laws::lemma_passing_answer_asks_again(m1, entry_model, Some(answer), tool_view@);
                }
            }
        }
        r
    }

}


} // verus!
