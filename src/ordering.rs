use vstd::prelude::*;
use vstd::seq_lib::{to_multiset_build, to_multiset_insert};

use crate::model::{Message, MessageModel};

verus! {

/// The models of a sequence of messages.
pub open spec fn message_views(s: Seq<Message>) -> Seq<MessageModel> {
    s.map_values(|m: Message| m@)
}

/// Rank of a message identity; a message not yet stored ranks first.
pub open spec fn id_rank(id: Option<i32>) -> int {
    match id {
        Some(i) => i as int,
        None => i32::MIN - 1,
    }
}

/// `a` may stand before `b` in a history: earlier timestamp, or the same
/// timestamp and a lower identity.
pub open spec fn comes_before(a: MessageModel, b: MessageModel) -> bool {
    a.created_on < b.created_on || (a.created_on == b.created_on && id_rank(a.id) <= id_rank(b.id))
}

/// Every message stands at or before each one that follows it.
pub open spec fn history_ordered(s: Seq<MessageModel>) -> bool {
    forall|i: int, j: int| 0 <= i < j < s.len() ==> comes_before(#[trigger] s[i], #[trigger] s[j])
}

fn id_rank_exec(id: Option<i32>) -> (r: i64)
    ensures
        r as int == id_rank(id),
{
    match id {
        Some(i) => i as i64,
        None => i32::MIN as i64 - 1,
    }
}

fn strictly_before(a: &Message, b: &Message) -> (r: bool)
    ensures
        r == !comes_before(b@, a@),
{
    a.created_on < b.created_on || (a.created_on == b.created_on && id_rank_exec(a.id)
        < id_rank_exec(b.id))
}

/// Puts the messages of a chat into history order: non-decreasing
/// `created_on`, ties broken by ascending identity. Messages that compare
/// equal keep their relative order.
pub fn order_messages(rows: Vec<Message>) -> (r: Vec<Message>)
    ensures
        history_ordered(message_views(r@)),
        r@.to_multiset() == rows@.to_multiset(),
{
    let mut out: Vec<Message> = Vec::new();
    let mut i: usize = 0;
    proof {
        broadcast use vstd::seq_lib::group_to_multiset_ensures;

        assert(rows@.subrange(0, 0) =~= out@);
    }
    while i < rows.len()
        invariant
            i <= rows.len(),
            history_ordered(message_views(out@)),
            out@.to_multiset() == rows@.subrange(0, i as int).to_multiset(),
        decreases rows.len() - i,
    {
        let x = rows[i].clone();
        let mut p: usize = 0;
        while p < out.len() && !strictly_before(&x, &out[p])
            invariant
                p <= out.len(),
                forall|k: int| 0 <= k < p ==> comes_before(#[trigger] out@[k]@, x@),
            decreases out.len() - p,
        {
            p = p + 1;
        }
        proof {
            let v = message_views(out@);
            assert forall|k: int| p <= k < out@.len() implies comes_before(
                x@,
                #[trigger] out@[k]@,
            ) by {
                assert(v[p as int] == out@[p as int]@);
                assert(v[k] == out@[k]@);
                if k > p {
                    assert(comes_before(v[p as int], v[k]));
                }
            }
            to_multiset_insert(out@, p as int, x);
        }
        let ghost before = out@;
        out.insert(p, x);
        proof {
            let v = message_views(out@);
            let w = message_views(before);
            assert(v =~= w.insert(p as int, x@));
            assert forall|a: int, b: int| 0 <= a < b < v.len() implies comes_before(
                #[trigger] v[a],
                #[trigger] v[b],
            ) by {
                if a < p && b < p {
                    assert(w[a] == v[a] && w[b] == v[b]);
                } else if a < p && b == p {
                    assert(v[a] == before[a]@);
                } else if a < p {
                    assert(v[a] == w[a] && v[b] == w[b - 1]);
                } else if a == p {
                    assert(v[b] == before[b - 1]@);
                } else {
                    assert(v[a] == w[a - 1] && v[b] == w[b - 1]);
                }
            }
            assert(rows@.subrange(0, i + 1) =~= rows@.subrange(0, i as int).push(rows@[i as int]));
            to_multiset_build(rows@.subrange(0, i as int), rows@[i as int]);
        }
        i = i + 1;
    }
    assert(rows@.subrange(0, rows.len() as int) =~= rows@);
    out
}

} // verus!
