//! What a whole run's conversation looks like: the prompt, then each tool
//! round as one assistant message holding the round's calls followed by
//! exactly one tool message per call.

use crate::agent::event::{ContentModel, EventModel, ToolCallStatus};
use crate::agent::runtime::{
    add_events, add_item, add_items, call_item, call_message, conversation, lemma_results_append_tool_messages,
    lemma_tool_calls_form_one_message, result_message, tool_result_item, FunctionCallModel, MessageModel,
};
use vstd::prelude::*;

verus! {

/// One tool round as a run records it: the function calls of the model's
/// answer, and what running each of them gave (`None`: no tool of that name).
pub struct RoundModel {
    pub calls: Seq<FunctionCallModel>,
    pub outcomes: Seq<Option<(ToolCallStatus, Seq<char>)>>,
}

/// The result pieces of a round, one per call, in order.
pub open spec fn round_results(r: RoundModel) -> Seq<ContentModel> {
    Seq::new(r.calls.len(), |i: int| tool_result_item(r.calls[i], r.outcomes[i]))
}

/// The pieces of a round's events: one assistant event holding the calls,
/// then one event per call holding its result.
pub open spec fn round_contents(r: RoundModel) -> Seq<Seq<ContentModel>> {
    seq![r.calls.map_values(|f: FunctionCallModel| call_item(f))] + Seq::new(
        r.calls.len(),
        |i: int| seq![round_results(r)[i]],
    )
}

/// The pieces of a run's events: the user's prompt, then each round in turn.
pub open spec fn run_contents(prompt: Seq<char>, rounds: Seq<RoundModel>) -> Seq<Seq<ContentModel>>
    decreases rounds.len(),
{
    if rounds.len() == 0 {
        seq![seq![ContentModel::Message { role: "user"@, content: prompt }]]
    } else {
        run_contents(prompt, rounds.drop_last()) + round_contents(rounds.last())
    }
}

/// The messages a round becomes: one assistant message holding all the
/// round's calls, then one tool message per call, in the calls' order and
/// under each call's id; nothing for a round without function calls.
pub open spec fn round_messages(r: RoundModel) -> Seq<MessageModel> {
    if r.calls.len() == 0 {
        Seq::empty()
    } else {
        seq![MessageModel::Assistant(None, Some(r.calls.map_values(|f: FunctionCallModel| call_message(f))))]
            + round_results(r).map_values(|it: ContentModel| result_message(it))
    }
}

/// The messages of the rounds, in turn.
pub open spec fn rounds_messages(rounds: Seq<RoundModel>) -> Seq<MessageModel>
    decreases rounds.len(),
{
    if rounds.len() == 0 {
        Seq::empty()
    } else {
        rounds_messages(rounds.drop_last()) + round_messages(rounds.last())
    }
}

/// The system instruction's message, if any.
pub open spec fn system_messages(system: Option<Seq<char>>) -> Seq<MessageModel> {
    match system {
        Some(s) => seq![MessageModel::System(s)],
        None => Seq::empty(),
    }
}

/// The pieces of groups of pieces, in order.
pub open spec fn flat(groups: Seq<Seq<ContentModel>>) -> Seq<ContentModel>
    decreases groups.len(),
{
    if groups.len() == 0 {
        Seq::empty()
    } else {
        flat(groups.drop_last()) + groups.last()
    }
}

proof fn lemma_add_items_concat(msgs: Seq<MessageModel>, a: Seq<ContentModel>, b: Seq<ContentModel>)
    ensures
        add_items(msgs, a + b) == add_items(add_items(msgs, a), b),
    decreases b.len(),
{
    if b.len() == 0 {
        assert(a + b =~= a);
    } else {
        lemma_add_items_concat(msgs, a, b.drop_last());
        assert((a + b).drop_last() =~= a + b.drop_last());
        assert((a + b).last() == b.last());
    }
}

proof fn lemma_flat_concat(g: Seq<Seq<ContentModel>>, h: Seq<Seq<ContentModel>>)
    ensures
        flat(g + h) == flat(g) + flat(h),
    decreases h.len(),
{
    if h.len() == 0 {
        assert(g + h =~= g);
        assert(flat(g) + flat(h) =~= flat(g));
    } else {
        lemma_flat_concat(g, h.drop_last());
        assert((g + h).drop_last() =~= g + h.drop_last());
        assert((g + h).last() == h.last());
        assert(flat(g) + flat(h.drop_last()) + h.last() =~= flat(g) + (flat(h.drop_last()) + h.last()));
    }
}

proof fn lemma_flat_singletons(s: Seq<ContentModel>)
    ensures
        flat(Seq::new(s.len(), |i: int| seq![s[i]])) == s,
    decreases s.len(),
{
    let g = Seq::new(s.len(), |i: int| seq![s[i]]);
    if s.len() == 0 {
        assert(flat(g) =~= s);
    } else {
        let p = s.drop_last();
        lemma_flat_singletons(p);
        assert(g.drop_last() =~= Seq::new(p.len(), |i: int| seq![p[i]]));
        assert(g.last() == seq![s.last()]);
        assert(p + seq![s.last()] =~= s);
    }
}

proof fn lemma_flat_single(x: Seq<ContentModel>)
    ensures
        flat(seq![x]) == x,
{
    assert(seq![x].drop_last() =~= Seq::<Seq<ContentModel>>::empty());
    assert(flat(Seq::<Seq<ContentModel>>::empty()) == Seq::<ContentModel>::empty());
    assert(Seq::<ContentModel>::empty() + x =~= x);
}

proof fn lemma_add_events_flat(msgs: Seq<MessageModel>, events: Seq<EventModel>)
    ensures
        add_events(msgs, events) == add_items(msgs, flat(events.map_values(|e: EventModel| e.content))),
    decreases events.len(),
{
    let groups = events.map_values(|e: EventModel| e.content);
    if events.len() == 0 {
        assert(flat(groups) =~= Seq::<ContentModel>::empty());
    } else {
        lemma_add_events_flat(msgs, events.drop_last());
        assert(groups.drop_last() =~= events.drop_last().map_values(|e: EventModel| e.content));
        assert(groups.last() == events.last().content);
        lemma_add_items_concat(msgs, flat(groups.drop_last()), groups.last());
    }
}

proof fn lemma_round_adds_its_messages(msgs: Seq<MessageModel>, r: RoundModel)
    requires
        r.outcomes.len() == r.calls.len(),
        msgs.len() == 0 || !(msgs.last() is Assistant),
    ensures
        add_items(msgs, flat(round_contents(r))) == msgs + round_messages(r),
        msgs + round_messages(r) == msgs || (msgs + round_messages(r)).last() is Tool,
{
    let items = r.calls.map_values(|f: FunctionCallModel| call_item(f));
    let results = round_results(r);
    let singles = Seq::new(r.calls.len(), |i: int| seq![results[i]]);
    assert(round_contents(r) == seq![items] + singles);
    lemma_flat_concat(seq![items], singles);
    lemma_flat_single(items);
    assert(results.len() == r.calls.len());
    assert(singles =~= Seq::new(results.len(), |i: int| seq![results[i]]));
    lemma_flat_singletons(results);
    lemma_add_items_concat(msgs, items, results);
    if r.calls.len() == 0 {
        assert(items =~= Seq::<ContentModel>::empty());
        assert(results =~= Seq::<ContentModel>::empty());
        assert(add_items(msgs, items) == msgs);
        assert(msgs + round_messages(r) =~= msgs);
    } else {
        lemma_tool_calls_form_one_message(msgs, r.calls);
        let assistant = MessageModel::Assistant(None, Some(r.calls.map_values(|f: FunctionCallModel| call_message(f))));
        assert forall|i: int| 0 <= i < results.len() implies (#[trigger] results[i]) is ToolCallResult by {
        }
        lemma_results_append_tool_messages(msgs.push(assistant), results);
        let tools = results.map_values(|it: ContentModel| result_message(it));
        assert(msgs.push(assistant) + tools =~= msgs + (seq![assistant] + tools));
        assert((msgs + round_messages(r)).last() == tools.last());
        assert(results.last() is ToolCallResult);
    }
}

proof fn lemma_rounds_add_their_messages(msgs: Seq<MessageModel>, prompt: Seq<char>, rounds: Seq<RoundModel>)
    requires
        msgs.len() == 0 || !(msgs.last() is Assistant),
        forall|k: int| 0 <= k < rounds.len() ==> (#[trigger] rounds[k]).outcomes.len() == rounds[k].calls.len(),
    ensures
        add_items(msgs, flat(run_contents(prompt, rounds))) == msgs.push(MessageModel::User(prompt))
            + rounds_messages(rounds),
        !((msgs.push(MessageModel::User(prompt)) + rounds_messages(rounds)).last() is Assistant),
    decreases rounds.len(),
{
    let start = msgs.push(MessageModel::User(prompt));
    if rounds.len() == 0 {
        let user = seq![ContentModel::Message { role: "user"@, content: prompt }];
        lemma_flat_single(user);
        assert(user.drop_last() =~= Seq::<ContentModel>::empty());
        assert(add_items(msgs, user.drop_last()) == msgs);
        assert(add_items(msgs, user) == add_item(msgs, user.last()));
        assert(start + rounds_messages(rounds) =~= start);
    } else {
        let prev = rounds.drop_last();
        assert forall|k: int| 0 <= k < prev.len() implies (#[trigger] prev[k]).outcomes.len() == prev[k].calls.len() by {
            assert(prev[k] == rounds[k]);
        }
        lemma_rounds_add_their_messages(msgs, prompt, prev);
        lemma_flat_concat(run_contents(prompt, prev), round_contents(rounds.last()));
        lemma_add_items_concat(msgs, flat(run_contents(prompt, prev)), flat(round_contents(rounds.last())));
        let before = start + rounds_messages(prev);
        assert(rounds.last() == rounds[rounds.len() - 1]);
        lemma_round_adds_its_messages(before, rounds.last());
        assert(before + round_messages(rounds.last()) =~= start + rounds_messages(rounds));
    }
}

/// Every call is answered once, in place: a run that starts with the user's
/// prompt and then goes through tool rounds (each recorded as one assistant
/// event with the answer's function calls, then one event per call with its
/// result) builds the conversation of the system instruction, the prompt,
/// and, for each round, one assistant message holding all its calls followed
/// by exactly one tool message per call, in the calls' order and under each
/// call's id.
pub proof fn lemma_run_pairs_every_call_with_one_result(
    system: Option<Seq<char>>,
    prompt: Seq<char>,
    rounds: Seq<RoundModel>,
    events: Seq<EventModel>,
)
    requires
        forall|k: int| 0 <= k < rounds.len() ==> (#[trigger] rounds[k]).outcomes.len() == rounds[k].calls.len(),
        events.map_values(|e: EventModel| e.content) == run_contents(prompt, rounds),
    ensures
        conversation(system, events) == system_messages(system).push(MessageModel::User(prompt))
            + rounds_messages(rounds),
{
    lemma_add_events_flat(system_messages(system), events);
    lemma_rounds_add_their_messages(system_messages(system), prompt, rounds);
}

} // verus!
