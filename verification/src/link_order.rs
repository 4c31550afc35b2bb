//! The order of a profile's links.
//!
//! A client asks for a new order by sending link ids. It may send only some of
//! them, send one twice, or send ids that are no active links of the profile.
//! [`resolve_order`] makes a complete order from such a request and
//! [`plan_link_order`] says what is then written.

use vstd::prelude::*;

verus! {

/// The ids held by a vector of strings, each as its characters.
pub open spec fn ids_of(v: Seq<String>) -> Seq<Seq<char>> {
    v.map_values(|s: String| s@)
}

/// `placed`, followed by each id of `ids` that occurs in `active` and has not
/// been placed before it, in the order of `ids`.
pub open spec fn append_new(
    placed: Seq<Seq<char>>,
    ids: Seq<Seq<char>>,
    active: Seq<Seq<char>>,
) -> Seq<Seq<char>>
    decreases ids.len(),
{
    if ids.len() == 0 {
        placed
    } else if active.contains(ids[0]) && !placed.contains(ids[0]) {
        append_new(placed.push(ids[0]), ids.drop_first(), active)
    } else {
        append_new(placed, ids.drop_first(), active)
    }
}

/// The complete order for a request. `existing` holds the ids of the
/// profile's active links in their stored order.
///
/// An empty request changes nothing. Otherwise the requested ids come first,
/// each where it is first named, without those that are no active link of the
/// profile; the active links that the request does not name follow in their
/// stored order.
pub open spec fn resolved_order(
    requested: Seq<Seq<char>>,
    existing: Seq<Seq<char>>,
) -> Seq<Seq<char>> {
    if requested.len() == 0 {
        existing
    } else {
        append_new(append_new(Seq::empty(), requested, existing), existing, existing)
    }
}

/// Whether `id` is one of `ids`.
pub fn contains_id(ids: &Vec<String>, id: &String) -> (found: bool)
    ensures
        found == ids_of(ids@).contains(id@),
{
    let mut i: usize = 0;
    while i < ids.len()
        invariant
            i <= ids.len(),
            forall|j: int| 0 <= j < i ==> ids_of(ids@)[j] != id@,
        decreases ids.len() - i,
    {
        if ids[i] == *id {
            assert(ids_of(ids@)[i as int] == id@);
            return true;
        }
        i += 1;
    }
    false
}

fn place_new(placed: &mut Vec<String>, ids: &Vec<String>, active: &Vec<String>)
    ensures
        ids_of(final(placed)@) == append_new(ids_of(old(placed)@), ids_of(ids@), ids_of(active@)),
{
    let mut i: usize = 0;
    assert(ids_of(ids@).skip(0) == ids_of(ids@));
    while i < ids.len()
        invariant
            i <= ids.len(),
            append_new(ids_of(old(placed)@), ids_of(ids@), ids_of(active@)) == append_new(
                ids_of(placed@),
                ids_of(ids@).skip(i as int),
                ids_of(active@),
            ),
        decreases ids.len() - i,
    {
        let ghost rest = ids_of(ids@).skip(i as int);
        let ghost before = ids_of(placed@);
        assert(rest.drop_first() == ids_of(ids@).skip(i + 1));
        assert(rest[0] == ids@[i as int]@);
        let id = &ids[i];
        if contains_id(active, id) && !contains_id(placed, id) {
            placed.push(id.clone());
            assert(ids_of(placed@) == before.push(rest[0]));
        }
        i += 1;
    }
}

/// Makes the complete order of a profile's active links from a request.
///
/// `requested_ids` is what the client sent; `existing_ids` holds the ids of
/// the profile's active links in their stored order.
pub fn resolve_order(requested_ids: &Vec<String>, existing_ids: &Vec<String>) -> (order: Vec<
    String,
>)
    ensures
        ids_of(order@) == resolved_order(ids_of(requested_ids@), ids_of(existing_ids@)),
{
    if requested_ids.len() == 0 {
        let order = existing_ids.clone();
        assert(ids_of(order@) == ids_of(existing_ids@));
        return order;
    }
    let mut order: Vec<String> = Vec::new();
    assert(ids_of(order@) == Seq::<Seq<char>>::empty());
    place_new(&mut order, requested_ids, existing_ids);
    place_new(&mut order, existing_ids, existing_ids);
    order
}

/// One write of a reorder: the link `link_id` gets the position `sort_order`.
#[derive(Debug)]
pub struct SortAssignment {
    pub link_id: String,
    pub sort_order: i64,
}

/// Whether `plan` gives the links of `order` the positions 0, 1, 2, ... in
/// that order, one write for each.
pub open spec fn assigns_positions(plan: Seq<SortAssignment>, order: Seq<Seq<char>>) -> bool {
    &&& plan.len() == order.len()
    &&& forall|i: int|
        0 <= i < plan.len() ==> (#[trigger] plan[i]).link_id@ == order[i] && plan[i].sort_order
            == i
}

/// The link whose profile a reorder request is about: the first one it names.
/// An empty request is about no profile, and nothing is to be done for it.
pub fn scoping_link(requested_ids: &Vec<String>) -> (first: Option<&String>)
    ensures
        match first {
            Some(id) => requested_ids@.len() > 0 && *id == requested_ids@[0],
            None => requested_ids@.len() == 0,
        },
{
    if requested_ids.len() == 0 {
        None
    } else {
        Some(&requested_ids[0])
    }
}

/// The writes that carry out a reorder request, to be made together or not at
/// all. An empty request asks for none. Any other request asks for one write
/// for each active link of the profile, giving the links of the resolved order
/// the positions 0, 1, 2, ... without a gap.
pub fn plan_link_order(requested_ids: &Vec<String>, existing_ids: &Vec<String>) -> (plan: Vec<
    SortAssignment,
>)
    requires
        existing_ids@.len() <= i64::MAX,
    ensures
        requested_ids@.len() == 0 ==> plan@.len() == 0,
        requested_ids@.len() > 0 ==> assigns_positions(
            plan@,
            resolved_order(ids_of(requested_ids@), ids_of(existing_ids@)),
        ),
{
    let mut plan: Vec<SortAssignment> = Vec::new();
    if requested_ids.len() == 0 {
        return plan;
    }
    let order = resolve_order(requested_ids, existing_ids);
    proof {
        lemma_resolved_order(ids_of(requested_ids@), ids_of(existing_ids@));
    }
    let mut i: usize = 0;
    while i < order.len()
        invariant
            i <= order.len() <= i64::MAX,
            assigns_positions(plan@, ids_of(order@).take(i as int)),
        decreases order.len() - i,
    {
        plan.push(SortAssignment { link_id: order[i].clone(), sort_order: i as i64 });
        i += 1;
    }
    assert(ids_of(order@).take(order.len() as int) == ids_of(order@));
    plan
}

/// What placing does. Where nothing was placed twice and only active links
/// were placed, that stays so; what was placed stays in front; and a link is
/// placed afterwards exactly if it was before or is an active link among
/// `ids`.
pub proof fn lemma_append_new(
    placed: Seq<Seq<char>>,
    ids: Seq<Seq<char>>,
    active: Seq<Seq<char>>,
)
    requires
        placed.no_duplicates(),
        forall|i: int| 0 <= i < placed.len() ==> active.contains(#[trigger] placed[i]),
    ensures
        append_new(placed, ids, active).no_duplicates(),
        placed.is_prefix_of(append_new(placed, ids, active)),
        forall|i: int|
            0 <= i < append_new(placed, ids, active).len() ==> active.contains(
                #[trigger] append_new(placed, ids, active)[i],
            ),
        forall|id: Seq<char>|
            #[trigger] append_new(placed, ids, active).contains(id) <==> placed.contains(id) || (
            ids.contains(id) && active.contains(id)),
    decreases ids.len(),
{
    let out = append_new(placed, ids, active);
    if ids.len() == 0 {
        assert(placed.subrange(0, placed.len() as int) == placed);
    } else {
        let rest = ids.drop_first();
        let next = if active.contains(ids[0]) && !placed.contains(ids[0]) {
            placed.push(ids[0])
        } else {
            placed
        };
        lemma_append_new(next, rest, active);
        assert(out == append_new(next, rest, active));
        assert(placed.is_prefix_of(out)) by {
            assert(next.subrange(0, placed.len() as int) == placed);
            assert(out.subrange(0, next.len() as int) == next);
            assert(out.subrange(0, placed.len() as int) == out.subrange(
                0,
                next.len() as int,
            ).subrange(0, placed.len() as int));
        }
        assert forall|id: Seq<char>| #[trigger]
            out.contains(id) <==> placed.contains(id) || (ids.contains(id) && active.contains(
                id,
            )) by {
            if next.contains(id) && !placed.contains(id) {
                assert(id == ids[0]);
            }
            if placed.contains(id) {
                let k = choose|k: int| 0 <= k < placed.len() && placed[k] == id;
                assert(next[k] == id);
            }
            if rest.contains(id) {
                let k = choose|k: int| 0 <= k < rest.len() && rest[k] == id;
                assert(ids[k + 1] == id);
            }
            if ids.contains(id) && id != ids[0] {
                let k = choose|k: int| 0 <= k < ids.len() && ids[k] == id;
                assert(rest[k - 1] == id);
            }
            if ids.contains(id) && id == ids[0] && active.contains(id) {
                if !placed.contains(id) {
                    assert(next[placed.len() as int] == id);
                }
            }
        }
    }
}

/// What a reorder gives for a request that is not empty: every active link of
/// the profile once and nothing else, so no longer than `existing`, and just
/// as long where `existing` names no link twice; in front stand the requested
/// ids that are active links, each once, in the order of the request.
pub proof fn lemma_resolved_order(requested: Seq<Seq<char>>, existing: Seq<Seq<char>>)
    requires
        requested.len() > 0,
    ensures
        resolved_order(requested, existing).no_duplicates(),
        forall|id: Seq<char>| #[trigger]
            resolved_order(requested, existing).contains(id) <==> existing.contains(id),
        resolved_order(requested, existing).len() <= existing.len(),
        existing.no_duplicates() ==> resolved_order(requested, existing).len() == existing.len(),
        append_new(Seq::empty(), requested, existing).is_prefix_of(
            resolved_order(requested, existing),
        ),
{
    let named = append_new(Seq::empty(), requested, existing);
    let order = resolved_order(requested, existing);
    lemma_append_new(Seq::empty(), requested, existing);
    lemma_append_new(named, existing, existing);
    assert(order.to_set() =~= existing.to_set());
    order.unique_seq_to_set();
    existing.lemma_cardinality_of_set();
    if existing.no_duplicates() {
        existing.unique_seq_to_set();
    }
}

/// Placing ids that are all placed already changes nothing.
proof fn lemma_append_placed(placed: Seq<Seq<char>>, ids: Seq<Seq<char>>, active: Seq<Seq<char>>)
    requires
        forall|i: int| 0 <= i < ids.len() ==> placed.contains(#[trigger] ids[i]),
    ensures
        append_new(placed, ids, active) == placed,
    decreases ids.len(),
{
    if ids.len() > 0 {
        let rest = ids.drop_first();
        assert forall|i: int| 0 <= i < rest.len() implies placed.contains(#[trigger] rest[i]) by {
            assert(rest[i] == ids[i + 1]);
        }
        lemma_append_placed(placed, rest, active);
    }
}

/// Placing distinct active links of which none is placed yet puts them all
/// behind what was placed, in their order.
proof fn lemma_append_fresh(placed: Seq<Seq<char>>, ids: Seq<Seq<char>>, active: Seq<Seq<char>>)
    requires
        ids.no_duplicates(),
        forall|i: int| 0 <= i < ids.len() ==> active.contains(#[trigger] ids[i]),
        forall|i: int| 0 <= i < ids.len() ==> !placed.contains(#[trigger] ids[i]),
    ensures
        append_new(placed, ids, active) == placed + ids,
    decreases ids.len(),
{
    if ids.len() == 0 {
        assert(placed + ids == placed);
    } else {
        let rest = ids.drop_first();
        let next = placed.push(ids[0]);
        assert forall|i: int| 0 <= i < rest.len() implies active.contains(#[trigger] rest[i])
            && !next.contains(rest[i]) by {
            assert(rest[i] == ids[i + 1]);
            if next.contains(rest[i]) {
                let k = choose|k: int| 0 <= k < next.len() && next[k] == rest[i];
                if k < placed.len() {
                    assert(placed[k] == rest[i]);
                }
            }
        }
        lemma_append_fresh(next, rest, active);
        assert(next + rest == placed + ids);
    }
}

/// A request that names every active link of the profile once, and nothing
/// else, is obeyed as it stands.
pub proof fn lemma_complete_request_is_kept(requested: Seq<Seq<char>>, existing: Seq<Seq<char>>)
    requires
        requested.no_duplicates(),
        forall|i: int| 0 <= i < requested.len() ==> existing.contains(#[trigger] requested[i]),
        forall|i: int| 0 <= i < existing.len() ==> requested.contains(#[trigger] existing[i]),
        existing.no_duplicates(),
    ensures
        resolved_order(requested, existing) == requested,
{
    if requested.len() == 0 {
        if existing.len() > 0 {
            assert(requested.contains(existing[0]));
        }
        assert(existing == requested);
    } else {
        lemma_append_fresh(Seq::empty(), requested, existing);
        assert(Seq::<Seq<char>>::empty() + requested == requested);
        lemma_append_placed(requested, existing, existing);
    }
}

/// What a reorder leaves in the store. A plan for a request that is not
/// empty, over active links that are all different, writes each of them
/// once and no other link, and the positions written are 0, 1, 2, ... up to
/// their number: afterwards the positions of the profile's active links are
/// dense and start at 0.
pub proof fn lemma_plan_is_dense(
    plan: Seq<SortAssignment>,
    requested: Seq<Seq<char>>,
    existing: Seq<Seq<char>>,
)
    requires
        requested.len() > 0,
        existing.no_duplicates(),
        assigns_positions(plan, resolved_order(requested, existing)),
    ensures
        plan.len() == existing.len(),
        forall|i: int| 0 <= i < plan.len() ==> (#[trigger] plan[i]).sort_order == i,
        forall|i: int| 0 <= i < plan.len() ==> existing.contains((#[trigger] plan[i]).link_id@),
        forall|i: int, j: int|
            0 <= i < j < plan.len() ==> (#[trigger] plan[i]).link_id@ != (#[trigger] plan[j]).link_id@,
        forall|k: int|
            0 <= k < existing.len() ==> exists|i: int|
                0 <= i < plan.len() && (#[trigger] plan[i]).link_id@ == #[trigger] existing[k],
{
    let order = resolved_order(requested, existing);
    lemma_resolved_order(requested, existing);
    assert forall|i: int| 0 <= i < plan.len() implies existing.contains(
        (#[trigger] plan[i]).link_id@,
    ) by {
        assert(order.contains(order[i]));
    }
    assert forall|k: int| 0 <= k < existing.len() implies exists|i: int|
        0 <= i < plan.len() && (#[trigger] plan[i]).link_id@ == #[trigger] existing[k] by {
        assert(existing.contains(existing[k]));
        assert(order.contains(existing[k]));
        let i = choose|i: int| 0 <= i < order.len() && order[i] == existing[k];
        assert(plan[i].link_id@ == existing[k]);
    }
}

} // verus!
