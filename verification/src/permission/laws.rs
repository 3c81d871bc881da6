//! What the permission bookkeeping promises across calls.

use crate::modals::permission_input::{EntryModel, PermissionMode, PermissionResult};
use crate::modals::tool::ToolViewModel;
use crate::permission::{
    PermissionModel, StepModel, is_lasting, next_step_spec, query_begin_spec, query_finish_spec, queue_has_key,
    record_answer_spec, spec_key, tool_always_granted, well_formed,
};
use vstd::prelude::*;

verus! {

/// A request key is always longer than the tool name inside it, so a key is never
/// mistaken for a tool name.
pub proof fn lemma_key_is_not_a_tool_name(tv: ToolViewModel, name: Seq<char>)
    requires
        name.len() <= tv.name.len(),
    ensures
        spec_key(tv) != name,
{
    reveal_strlit("id: ");
    assert(spec_key(tv).len() > tv.name.len());
}

/// In `AutoApprove` mode every request is granted for good, and in `AutoDeny`
/// mode every request is denied, without asking and without any change.
pub proof fn lemma_automatic_modes(m: crate::permission::PermissionModel, tv: ToolViewModel)
    ensures
        m.mode == PermissionMode::AutoApprove ==> query_begin_spec(m, tv) == (m, Some(PermissionResult::GrantedAlways)),
        m.mode == PermissionMode::AutoDeny ==> query_begin_spec(m, tv) == (m, Some(PermissionResult::Denied)),
{
}

/// Once a request has been answered `Denied` or `GrantedAlways`, the same request
/// gets that answer again at once, without being asked.
pub proof fn lemma_lasting_answer_is_reused(
    m: crate::permission::PermissionModel,
    entry: EntryModel,
    r: PermissionResult,
    tv: ToolViewModel,
)
    requires
        m.mode == PermissionMode::Interactive,
        is_lasting(r),
        entry.key == spec_key(tv),
    ensures
        record_answer_spec(m, entry, Some(r)).1 == r,
        query_begin_spec(record_answer_spec(m, entry, Some(r)).0, tv) == (record_answer_spec(m, entry, Some(r)).0, Some(r)),
{
}

/// An answer that grants only once, a timeout, or unreadable input is forgotten
/// when the query ends: the same request is asked again next time (unless its
/// tool has been granted for good meanwhile).
pub proof fn lemma_passing_answer_asks_again(
    m: crate::permission::PermissionModel,
    entry: EntryModel,
    answer: Option<PermissionResult>,
    tv: ToolViewModel,
)
    requires
        m.mode == PermissionMode::Interactive,
        entry.key == spec_key(tv),
        answer != Some(PermissionResult::Denied),
        answer != Some(PermissionResult::GrantedAlways),
        !tool_always_granted(m.decisions, tv.name),
    ensures
        ({
            let (m1, res) = record_answer_spec(m, entry, answer);
            let (m2, out) = query_finish_spec(m1, entry.key, Some(res));
            &&& out == res
            &&& !is_lasting(out)
            &&& !m2.decisions.contains_key(spec_key(tv))
            &&& query_begin_spec(m2, tv).1 is None
        }),
{
    let (m1, res) = record_answer_spec(m, entry, answer);
    let (m2, out) = query_finish_spec(m1, entry.key, Some(res));
    lemma_key_is_not_a_tool_name(tv, tv.name);
    assert(m2.decisions == m.decisions.remove(entry.key));
    assert(m2.decisions.remove(spec_key(tv)) == m.decisions.remove(spec_key(tv)));
}

/// Granting a tool for good grants every later request for that tool, except a
/// request that was itself denied before.
pub proof fn lemma_tool_grant_covers_its_requests(
    m: crate::permission::PermissionModel,
    entry: EntryModel,
    tv: ToolViewModel,
)
    requires
        m.mode == PermissionMode::Interactive,
        entry.key == spec_key(entry.tool_view),
        tv.name == entry.tool_view.name,
        !(m.decisions.contains_key(spec_key(tv)) && m.decisions[spec_key(tv)] == PermissionResult::Denied),
    ensures
        query_begin_spec(record_answer_spec(m, entry, Some(PermissionResult::GrantedAlways)).0, tv).1
            == Some(PermissionResult::GrantedAlways),
{
    let (m1, _) = record_answer_spec(m, entry, Some(PermissionResult::GrantedAlways));
    lemma_key_is_not_a_tool_name(tv, tv.name);
    lemma_key_is_not_a_tool_name(entry.tool_view, tv.name);
    let k2 = spec_key(tv);
    assert(m1.decisions[tv.name] == PermissionResult::GrantedAlways);
    assert(m1.decisions.remove(k2)[tv.name] == PermissionResult::GrantedAlways);
}

/// Once a request is answered `GrantedAlways`, a waiting request for the same
/// tool is answered `GrantedAlways` when its turn comes, without being asked,
/// while a waiting request for a tool that was not granted is still asked.
pub proof fn lemma_tool_grant_answers_waiting_requests(m: crate::permission::PermissionModel, entry: EntryModel)
    ensures
        ({
            let m1 = record_answer_spec(m, entry, Some(PermissionResult::GrantedAlways)).0;
            &&& m1.queue == m.queue
            &&& m1.queue.len() > 0 && m1.queue[0].tool_view.name == entry.tool_view.name ==> next_step_spec(m1)
                == (PermissionModel { queue: m1.queue.drop_first(), ..m1 }, StepModel::Replied(
                m1.queue[0].key,
                PermissionResult::GrantedAlways,
            ))
            &&& m1.queue.len() > 0 && m1.queue[0].tool_view.name != entry.tool_view.name
                && m1.queue[0].tool_view.name != entry.key
                && !tool_always_granted(m.decisions, m1.queue[0].tool_view.name) ==> next_step_spec(m1)
                == (PermissionModel { queue: m1.queue.drop_first(), ..m1 }, StepModel::Ask(m1.queue[0]))
        }),
{
}

/// A request that waits is queued once: asking again for the same request while
/// it waits leaves the queue as it is.
pub proof fn lemma_request_is_queued_once(m: crate::permission::PermissionModel, tv: ToolViewModel)
    requires
        m.mode == PermissionMode::Interactive,
        query_begin_spec(m, tv).1 is None,
    ensures
        queue_has_key(query_begin_spec(m, tv).0.queue, spec_key(tv)),
        query_begin_spec(query_begin_spec(m, tv).0, tv).1 is None,
        query_begin_spec(query_begin_spec(m, tv).0, tv).0.queue == query_begin_spec(m, tv).0.queue,
{
    let m1 = query_begin_spec(m, tv).0;
    let key = spec_key(tv);
    if !queue_has_key(m.queue, key) {
        let last = m1.queue.len() - 1;
        assert(m1.queue[last].key == key);
    }
    assert(m1.decisions.remove(key) == m1.decisions);
}

/// Every operation keeps the queue well formed: each key at most once, each
/// entry under its own key.
pub proof fn lemma_operations_keep_well_formed(
    m: crate::permission::PermissionModel,
    tv: ToolViewModel,
    entry: EntryModel,
    answer: Option<PermissionResult>,
    key: Seq<char>,
    received: Option<PermissionResult>,
)
    requires
        well_formed(m),
    ensures
        well_formed(query_begin_spec(m, tv).0),
        well_formed(next_step_spec(m).0),
        well_formed(record_answer_spec(m, entry, answer).0),
        well_formed(query_finish_spec(m, key, received).0),
{
    let m1 = query_begin_spec(m, tv).0;
    if m1.queue.len() > m.queue.len() {
        assert(!queue_has_key(m.queue, spec_key(tv)));
        assert forall|i: int, j: int| 0 <= i < j < m1.queue.len() implies (#[trigger] m1.queue[i]).key
            != (#[trigger] m1.queue[j]).key by {
            if j == m.queue.len() {
                assert(m.queue[i] == m1.queue[i]);
                if m1.queue[i].key == m1.queue[j].key {
                    assert(queue_has_key(m.queue, spec_key(tv)));
                }
            } else {
                assert(m.queue[i] == m1.queue[i]);
                assert(m.queue[j] == m1.queue[j]);
            }
        }
        assert forall|i: int| 0 <= i < m1.queue.len() implies (#[trigger] m1.queue[i]).key == spec_key(
            m1.queue[i].tool_view,
        ) by {
            if i < m.queue.len() {
                assert(m.queue[i] == m1.queue[i]);
            }
        }
    }
    let m2 = next_step_spec(m).0;
    if m.queue.len() > 0 {
        assert forall|i: int, j: int| 0 <= i < j < m2.queue.len() implies (#[trigger] m2.queue[i]).key
            != (#[trigger] m2.queue[j]).key by {
            assert(m2.queue[i] == m.queue[i + 1]);
            assert(m2.queue[j] == m.queue[j + 1]);
        }
        assert forall|i: int| 0 <= i < m2.queue.len() implies (#[trigger] m2.queue[i]).key == spec_key(
            m2.queue[i].tool_view,
        ) by {
            assert(m2.queue[i] == m.queue[i + 1]);
        }
    }
}

} // verus!
