use vstd::prelude::*;

use crate::registry::route;

verus! {

/// The slots yielded by routing replies with identifiers `ids`, one after
/// another in arrival order, starting from the registry `m`.
pub open spec fn route_all<S>(m: Map<Seq<char>, S>, ids: Seq<Seq<char>>) -> Seq<Option<S>>
    decreases ids.len(),
{
    if ids.len() == 0 {
        Seq::empty()
    } else {
        let (rest, slot) = route(m, Some(ids[0]));
        seq![slot] + route_all(rest, ids.drop_first())
    }
}

/// Replies reach their own callers, in the order they arrive: when replies
/// with distinct live identifiers come in any order, the i-th reply
/// resolves exactly the slot registered under its own identifier.
pub proof fn lemma_replies_resolve_own_slots<S>(m: Map<Seq<char>, S>, ids: Seq<Seq<char>>)
    requires
        forall|i: int| 0 <= i < ids.len() ==> m.contains_key(#[trigger] ids[i]),
        forall|i: int, j: int| 0 <= i < j < ids.len() ==> ids[i] != ids[j],
    ensures
        route_all(m, ids).len() == ids.len(),
        forall|i: int| 0 <= i < ids.len() ==> #[trigger] route_all(m, ids)[i] == Some(m[ids[i]]),
    decreases ids.len(),
{
    if ids.len() > 0 {
        let rest = m.remove(ids[0]);
        let tail = ids.drop_first();
        assert forall|i: int| 0 <= i < tail.len() implies rest.contains_key(#[trigger] tail[i]) by {
            assert(tail[i] == ids[i + 1]);
            assert(ids[0] != ids[i + 1]);
        }
        assert forall|i: int, j: int| 0 <= i < j < tail.len() implies tail[i] != tail[j] by {
            assert(tail[i] == ids[i + 1] && tail[j] == ids[j + 1]);
        }
        lemma_replies_resolve_own_slots(rest, tail);
        assert forall|i: int| 0 <= i < ids.len() implies #[trigger] route_all(m, ids)[i] == Some(
            m[ids[i]],
        ) by {
            if i > 0 {
                assert(tail[i - 1] == ids[i]);
                assert(ids[0] != ids[i]);
                assert(route_all(m, ids)[i] == route_all(rest, tail)[i - 1]);
            }
        }
    }
}

/// A reply with an identifier that is not live, or with none, resolves no
/// caller and leaves every live request as it was.
pub proof fn lemma_stray_reply_changes_nothing<S>(m: Map<Seq<char>, S>, id: Option<Seq<char>>)
    requires
        id is None || !m.contains_key(id->Some_0),
    ensures
        route(m, id) == (m, None::<S>),
{
}

/// A request that registers under an identifier that was not live, and then
/// ends by any path, leaves the registry exactly as it found it, and so of
/// the same size.
pub proof fn lemma_finished_request_leaves_no_trace<S>(m: Map<Seq<char>, S>, k: Seq<char>, slot: S)
    requires
        !m.contains_key(k),
        m.dom().finite(),
    ensures
        m.insert(k, slot).remove(k) == m,
        m.insert(k, slot).remove(k).len() == m.len(),
{
    assert(m.insert(k, slot).remove(k) =~= m);
}

} // verus!
