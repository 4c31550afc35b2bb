//! Clicks, and what is counted from them.
//!
//! A click is recorded whenever a visitor follows a link; it is never changed
//! afterwards. The counts are taken from one snapshot of the stored links and
//! clicks, handed over as two slices of rows.

use crate::ids::fresh_id;
use crate::links::Link;
use vstd::prelude::*;

verus! {

/// A recorded click.
#[derive(Debug)]
pub struct Click {
    pub id: String,
    pub link_id: String,
    pub ip_address: Option<String>,
    pub user_agent: Option<String>,
}

/// A click that is about to be recorded.
#[derive(Debug)]
pub struct NewClick {
    pub id: String,
    pub link_id: String,
    pub ip_address: Option<String>,
    pub user_agent: Option<String>,
}

/// The two counts shown for a profile.
#[derive(Debug)]
pub struct ClickStats {
    pub total_clicks: i64,
    pub unique_clicks: i64,
}

/// Whether `link_id` names a link of the profile `frogol_id`, active or not.
pub open spec fn is_link_of(links: Seq<Link>, frogol_id: Seq<char>, link_id: Seq<char>) -> bool {
    exists|i: int|
        0 <= i < links.len() && (#[trigger] links[i]).frogol_id@ == frogol_id && links[i].id@
            == link_id
}

/// The number of clicks on links of the profile `frogol_id`.
pub open spec fn total_clicks(links: Seq<Link>, clicks: Seq<Click>, frogol_id: Seq<char>) -> nat
    decreases clicks.len(),
{
    if clicks.len() == 0 {
        0
    } else if is_link_of(links, frogol_id, clicks.last().link_id@) {
        total_clicks(links, clicks.drop_last(), frogol_id) + 1
    } else {
        total_clicks(links, clicks.drop_last(), frogol_id)
    }
}

/// The addresses from which links of the profile `frogol_id` were followed.
/// A click without an address adds none.
pub open spec fn click_addresses(links: Seq<Link>, clicks: Seq<Click>, frogol_id: Seq<char>) -> Set<
    Seq<char>,
>
    decreases clicks.len(),
{
    if clicks.len() == 0 {
        Set::empty()
    } else {
        let before = click_addresses(links, clicks.drop_last(), frogol_id);
        match clicks.last().ip_address {
            Some(address) if is_link_of(links, frogol_id, clicks.last().link_id@) => before.insert(
                address@,
            ),
            _ => before,
        }
    }
}

/// The number of clicks on the link `link_id`.
pub open spec fn clicks_on(clicks: Seq<Click>, link_id: Seq<char>) -> nat
    decreases clicks.len(),
{
    if clicks.len() == 0 {
        0
    } else if clicks.last().link_id@ == link_id {
        clicks_on(clicks.drop_last(), link_id) + 1
    } else {
        clicks_on(clicks.drop_last(), link_id)
    }
}

/// The ids of the links of the profile `frogol_id`, in the order of `links`,
/// each once.
pub open spec fn link_ids_of(links: Seq<Link>, frogol_id: Seq<char>) -> Seq<Seq<char>>
    decreases links.len(),
{
    if links.len() == 0 {
        Seq::empty()
    } else {
        let before = link_ids_of(links.drop_last(), frogol_id);
        if links.last().frogol_id@ == frogol_id && !before.contains(links.last().id@) {
            before.push(links.last().id@)
        } else {
            before
        }
    }
}

/// Whether `counts` lists the links `ids` in their order, each with the
/// number of its clicks among `clicks`.
pub open spec fn counts_clicks(
    counts: Seq<(String, i64)>,
    ids: Seq<Seq<char>>,
    clicks: Seq<Click>,
) -> bool {
    &&& counts.len() == ids.len()
    &&& forall|i: int|
        0 <= i < counts.len() ==> (#[trigger] counts[i]).0@ == ids[i] && counts[i].1 == clicks_on(
            clicks,
            ids[i],
        )
}

/// The count that `counts` holds for the link `link_id`, and 0 where it holds
/// none: a link that was never followed may be missing from a list of counts.
pub open spec fn count_for(counts: Seq<(String, i64)>, link_id: Seq<char>) -> i64
    decreases counts.len(),
{
    if counts.len() == 0 {
        0
    } else if counts[0].0@ == link_id {
        counts[0].1
    } else {
        count_for(counts.drop_first(), link_id)
    }
}

impl NewClick {
    /// The click on `link_id` that is recorded under the identifier `id`.
    pub fn with_id(
        id: String,
        link_id: &str,
        ip_address: Option<String>,
        user_agent: Option<String>,
    ) -> (click: NewClick)
        ensures
            click.id == id,
            click.link_id@ == link_id@,
            click.ip_address == ip_address,
            click.user_agent == user_agent,
    {
        NewClick { id, link_id: link_id.to_owned(), ip_address, user_agent }
    }

    /// A click on `link_id`, to be recorded under a fresh random identifier.
    pub fn prepare(link_id: &str, ip_address: Option<String>, user_agent: Option<String>) -> (click:
        NewClick)
        ensures
            click.link_id@ == link_id@,
            click.ip_address == ip_address,
            click.user_agent == user_agent,
    {
        NewClick::with_id(fresh_id(), link_id, ip_address, user_agent)
    }
}

/// Whether `link_id` names a link of the profile `frogol_id`.
pub fn link_belongs(links: &Vec<Link>, frogol_id: &String, link_id: &String) -> (found: bool)
    ensures
        found == is_link_of(links@, frogol_id@, link_id@),
{
    let mut i: usize = 0;
    while i < links.len()
        invariant
            i <= links.len(),
            forall|j: int|
                0 <= j < i ==> !((#[trigger] links@[j]).frogol_id@ == frogol_id@ && links@[j].id@
                    == link_id@),
        decreases links.len() - i,
    {
        if links[i].frogol_id == *frogol_id && links[i].id == *link_id {
            return true;
        }
        i += 1;
    }
    false
}

fn holds_address(seen: &Vec<String>, address: &String) -> (found: bool)
    ensures
        found == seen@.map_values(|s: String| s@).contains(address@),
{
    let ghost views = seen@.map_values(|s: String| s@);
    let mut i: usize = 0;
    while i < seen.len()
        invariant
            i <= seen.len(),
            views == seen@.map_values(|s: String| s@),
            forall|j: int| 0 <= j < i ==> views[j] != address@,
        decreases seen.len() - i,
    {
        if seen[i] == *address {
            assert(views[i as int] == address@);
            return true;
        }
        i += 1;
    }
    false
}

/// Counts the clicks of the profile `frogol_id`: how many there were on its
/// links, and from how many different addresses they came.
pub fn get_frogol_click_stats(links: &Vec<Link>, clicks: &Vec<Click>, frogol_id: &str) -> (stats:
    ClickStats)
    requires
        clicks@.len() <= i64::MAX,
    ensures
        stats.total_clicks == total_clicks(links@, clicks@, frogol_id@),
        stats.unique_clicks == click_addresses(links@, clicks@, frogol_id@).len(),
        0 <= stats.unique_clicks <= stats.total_clicks <= clicks@.len(),
{
    let profile = frogol_id.to_owned();
    let mut total: i64 = 0;
    let mut seen: Vec<String> = Vec::new();
    let mut i: usize = 0;
    assert(seen@.map_values(|s: String| s@).to_set() =~= Set::<Seq<char>>::empty());
    while i < clicks.len()
        invariant
            i <= clicks.len() <= i64::MAX,
            profile@ == frogol_id@,
            total == total_clicks(links@, clicks@.take(i as int), frogol_id@),
            seen@.map_values(|s: String| s@).no_duplicates(),
            seen@.map_values(|s: String| s@).to_set() == click_addresses(
                links@,
                clicks@.take(i as int),
                frogol_id@,
            ),
            seen.len() <= total <= i,
        decreases clicks.len() - i,
    {
        let click = &clicks[i];
        let ghost before = seen@.map_values(|s: String| s@);
        assert(clicks@.take(i + 1).drop_last() == clicks@.take(i as int));
        assert(clicks@.take(i + 1).last() == clicks@[i as int]);
        if link_belongs(links, &profile, &click.link_id) {
            total += 1;
            match &click.ip_address {
                Some(address) => {
                    if !holds_address(&seen, address) {
                        seen.push(address.clone());
                        assert(seen@.map_values(|s: String| s@) == before.push(address@));
                        proof {
                            before.lemma_push_to_set_commute(address@);
                        }
                    } else {
                        assert(before.to_set().insert(address@) =~= before.to_set());
                    }
                },
                None => {},
            }
        }
        i += 1;
    }
    assert(clicks@.take(clicks.len() as int) == clicks@);
    proof {
        seen@.map_values(|s: String| s@).unique_seq_to_set();
    }
    ClickStats { total_clicks: total, unique_clicks: seen.len() as i64 }
}

/// Counts the clicks on the link `link_id`.
pub fn count_clicks_on(clicks: &Vec<Click>, link_id: &String) -> (n: i64)
    requires
        clicks@.len() <= i64::MAX,
    ensures
        n == clicks_on(clicks@, link_id@),
        0 <= n <= clicks@.len(),
{
    let mut n: i64 = 0;
    let mut i: usize = 0;
    while i < clicks.len()
        invariant
            i <= clicks.len() <= i64::MAX,
            n == clicks_on(clicks@.take(i as int), link_id@),
            0 <= n <= i,
        decreases clicks.len() - i,
    {
        assert(clicks@.take(i + 1).drop_last() == clicks@.take(i as int));
        assert(clicks@.take(i + 1).last() == clicks@[i as int]);
        if clicks[i].link_id == *link_id {
            n += 1;
        }
        i += 1;
    }
    assert(clicks@.take(clicks.len() as int) == clicks@);
    n
}

fn is_counted(counts: &Vec<(String, i64)>, link_id: &String) -> (found: bool)
    ensures
        found == exists|j: int| 0 <= j < counts@.len() && (#[trigger] counts@[j]).0@ == link_id@,
{
    let mut i: usize = 0;
    while i < counts.len()
        invariant
            i <= counts.len(),
            forall|j: int| 0 <= j < i ==> (#[trigger] counts@[j]).0@ != link_id@,
        decreases counts.len() - i,
    {
        if counts[i].0 == *link_id {
            return true;
        }
        i += 1;
    }
    false
}

/// Counts the clicks on each link of the profile `frogol_id`. Every link of
/// the profile is listed once, in the order of `links`, whether it is active
/// or not and whether it was ever followed or not.
pub fn get_clicks_by_link(links: &Vec<Link>, clicks: &Vec<Click>, frogol_id: &str) -> (counts: Vec<
    (String, i64),
>)
    requires
        clicks@.len() <= i64::MAX,
    ensures
        counts_clicks(counts@, link_ids_of(links@, frogol_id@), clicks@),
{
    let profile = frogol_id.to_owned();
    let mut counts: Vec<(String, i64)> = Vec::new();
    let mut i: usize = 0;
    while i < links.len()
        invariant
            i <= links.len(),
            clicks@.len() <= i64::MAX,
            profile@ == frogol_id@,
            counts_clicks(counts@, link_ids_of(links@.take(i as int), frogol_id@), clicks@),
        decreases links.len() - i,
    {
        let link = &links[i];
        let ghost before = link_ids_of(links@.take(i as int), frogol_id@);
        assert(links@.take(i + 1).drop_last() == links@.take(i as int));
        assert(links@.take(i + 1).last() == links@[i as int]);
        if link.frogol_id == profile {
            let counted = is_counted(&counts, &link.id);
            proof {
                if counted {
                    let j = choose|j: int|
                        0 <= j < counts@.len() && (#[trigger] counts@[j]).0@ == link.id@;
                    assert(before[j] == link.id@);
                } else if before.contains(link.id@) {
                    let j = choose|j: int| 0 <= j < before.len() && before[j] == link.id@;
                    assert(counts@[j].0@ == link.id@);
                }
            }
            if !counted {
                let n = count_clicks_on(clicks, &link.id);
                counts.push((link.id.clone(), n));
            }
        }
        i += 1;
    }
    assert(links@.take(links.len() as int) == links@);
    counts
}

/// Looks up how often the link `link_id` was followed; 0 where `counts` does
/// not list it.
pub fn clicks_for(counts: &Vec<(String, i64)>, link_id: &String) -> (n: i64)
    ensures
        n == count_for(counts@, link_id@),
{
    let mut i: usize = 0;
    assert(counts@.skip(0) == counts@);
    while i < counts.len()
        invariant
            i <= counts.len(),
            count_for(counts@, link_id@) == count_for(counts@.skip(i as int), link_id@),
        decreases counts.len() - i,
    {
        assert(counts@.skip(i as int).drop_first() == counts@.skip(i + 1));
        if counts[i].0 == *link_id {
            return counts[i].1;
        }
        i += 1;
    }
    0
}

/// Whether `click` is a click on a link of the profile `frogol_id` that came
/// from `address`.
pub open spec fn came_from(
    links: Seq<Link>,
    frogol_id: Seq<char>,
    click: Click,
    address: Seq<char>,
) -> bool {
    is_link_of(links, frogol_id, click.link_id@) && match click.ip_address {
        Some(a) => a@ == address,
        None => false,
    }
}

/// An address is counted exactly if some click on a link of the profile came
/// from it; and only finitely many are.
pub proof fn lemma_click_addresses(
    links: Seq<Link>,
    clicks: Seq<Click>,
    frogol_id: Seq<char>,
    address: Seq<char>,
)
    ensures
        click_addresses(links, clicks, frogol_id).contains(address) <==> exists|i: int|
            0 <= i < clicks.len() && came_from(links, frogol_id, #[trigger] clicks[i], address),
        click_addresses(links, clicks, frogol_id).finite(),
    decreases clicks.len(),
{
    if clicks.len() > 0 {
        let rest = clicks.drop_last();
        lemma_click_addresses(links, rest, frogol_id, address);
        if click_addresses(links, clicks, frogol_id).contains(address) {
            if click_addresses(links, rest, frogol_id).contains(address) {
                let i = choose|i: int|
                    0 <= i < rest.len() && came_from(links, frogol_id, #[trigger] rest[i], address);
                assert(clicks[i] == rest[i]);
            } else {
                assert(came_from(links, frogol_id, clicks[clicks.len() - 1], address));
            }
        }
        if exists|i: int|
            0 <= i < clicks.len() && came_from(links, frogol_id, #[trigger] clicks[i], address) {
            let i = choose|i: int|
                0 <= i < clicks.len() && came_from(links, frogol_id, #[trigger] clicks[i], address);
            if i < rest.len() {
                assert(rest[i] == clicks[i]);
            }
        }
    }
}

/// The list of a profile's links names every link of the profile, and only
/// those, and none twice.
pub proof fn lemma_link_ids_of(links: Seq<Link>, frogol_id: Seq<char>)
    ensures
        link_ids_of(links, frogol_id).no_duplicates(),
        forall|id: Seq<char>| #[trigger]
            link_ids_of(links, frogol_id).contains(id) <==> is_link_of(links, frogol_id, id),
    decreases links.len(),
{
    let ids = link_ids_of(links, frogol_id);
    if links.len() > 0 {
        let rest = links.drop_last();
        let before = link_ids_of(rest, frogol_id);
        lemma_link_ids_of(rest, frogol_id);
        assert forall|id: Seq<char>| #[trigger]
            ids.contains(id) <==> is_link_of(links, frogol_id, id) by {
            if is_link_of(rest, frogol_id, id) {
                let i = choose|i: int|
                    0 <= i < rest.len() && (#[trigger] rest[i]).frogol_id@ == frogol_id
                        && rest[i].id@ == id;
                assert(links[i] == rest[i]);
            }
            if is_link_of(links, frogol_id, id) {
                let i = choose|i: int|
                    0 <= i < links.len() && (#[trigger] links[i]).frogol_id@ == frogol_id
                        && links[i].id@ == id;
                if i < rest.len() {
                    assert(rest[i] == links[i]);
                }
            }
            if before.contains(id) {
                let j = choose|j: int| 0 <= j < before.len() && before[j] == id;
                assert(ids[j] == id);
            }
            if ids.contains(id) && !before.contains(id) {
                assert(id == links.last().id@);
                assert(links[links.len() - 1].frogol_id@ == frogol_id);
            }
            if links.last().frogol_id@ == frogol_id && links.last().id@ == id && !before.contains(
                id,
            ) {
                assert(ids[before.len() as int] == id);
            }
        }
    }
}

/// The sum of the counts that `counts` lists.
pub open spec fn sum_of_counts(counts: Seq<(String, i64)>) -> int
    decreases counts.len(),
{
    if counts.len() == 0 {
        0
    } else {
        sum_of_counts(counts.drop_last()) + counts.last().1
    }
}

/// The number of clicks on the links `ids`, taken together.
pub open spec fn clicks_on_all(clicks: Seq<Click>, ids: Seq<Seq<char>>) -> nat
    decreases ids.len(),
{
    if ids.len() == 0 {
        0
    } else {
        clicks_on_all(clicks, ids.drop_last()) + clicks_on(clicks, ids.last())
    }
}

/// One more click adds one to the clicks on a list of different links if it
/// is a click on one of them, and nothing otherwise.
proof fn lemma_one_more_click(clicks: Seq<Click>, click: Click, ids: Seq<Seq<char>>)
    requires
        ids.no_duplicates(),
    ensures
        clicks_on_all(clicks.push(click), ids) == clicks_on_all(clicks, ids) + (if ids.contains(
            click.link_id@,
        ) {
            1nat
        } else {
            0nat
        }),
    decreases ids.len(),
{
    let more = clicks.push(click);
    assert(more.drop_last() == clicks);
    if ids.len() > 0 {
        let rest = ids.drop_last();
        lemma_one_more_click(clicks, click, rest);
        assert(ids[ids.len() - 1] == ids.last());
        if rest.contains(click.link_id@) {
            let j = choose|j: int| 0 <= j < rest.len() && rest[j] == click.link_id@;
            assert(ids[j] == click.link_id@);
        }
        if ids.contains(click.link_id@) && ids.last() != click.link_id@ {
            let j = choose|j: int| 0 <= j < ids.len() && ids[j] == click.link_id@;
            assert(rest[j] == click.link_id@);
        }
    }
}

/// The clicks on all links of a profile, link by link, are the clicks of the
/// profile.
proof fn lemma_clicks_on_all_links(links: Seq<Link>, clicks: Seq<Click>, frogol_id: Seq<char>)
    ensures
        clicks_on_all(clicks, link_ids_of(links, frogol_id)) == total_clicks(
            links,
            clicks,
            frogol_id,
        ),
    decreases clicks.len(),
{
    let ids = link_ids_of(links, frogol_id);
    lemma_link_ids_of(links, frogol_id);
    if clicks.len() == 0 {
        lemma_no_clicks(clicks, ids);
    } else {
        lemma_clicks_on_all_links(links, clicks.drop_last(), frogol_id);
        lemma_one_more_click(clicks.drop_last(), clicks.last(), ids);
        assert(clicks.drop_last().push(clicks.last()) == clicks);
    }
}

/// Without clicks there are none on any link.
proof fn lemma_no_clicks(clicks: Seq<Click>, ids: Seq<Seq<char>>)
    requires
        clicks.len() == 0,
    ensures
        clicks_on_all(clicks, ids) == 0,
    decreases ids.len(),
{
    if ids.len() > 0 {
        lemma_no_clicks(clicks, ids.drop_last());
    }
}

/// A list of counts sums to the clicks on the links it lists.
proof fn lemma_counts_sum(counts: Seq<(String, i64)>, ids: Seq<Seq<char>>, clicks: Seq<Click>)
    requires
        counts_clicks(counts, ids, clicks),
    ensures
        sum_of_counts(counts) == clicks_on_all(clicks, ids),
    decreases counts.len(),
{
    if counts.len() > 0 {
        assert(counts_clicks(counts.drop_last(), ids.drop_last(), clicks)) by {
            assert forall|i: int| 0 <= i < counts.len() - 1 implies (#[trigger] counts.drop_last()[i]).0@
                == ids.drop_last()[i] && counts.drop_last()[i].1 == clicks_on(
                clicks,
                ids.drop_last()[i],
            ) by {
                assert(counts.drop_last()[i] == counts[i]);
            }
        }
        lemma_counts_sum(counts.drop_last(), ids.drop_last(), clicks);
        assert(counts.last() == counts[counts.len() - 1]);
    }
}

/// The counts of a profile's links add up to the profile's total: every click
/// of the profile is counted for exactly one of its links.
pub proof fn lemma_link_counts_sum_to_total(
    links: Seq<Link>,
    clicks: Seq<Click>,
    frogol_id: Seq<char>,
    counts: Seq<(String, i64)>,
)
    requires
        counts_clicks(counts, link_ids_of(links, frogol_id), clicks),
    ensures
        sum_of_counts(counts) == total_clicks(links, clicks, frogol_id),
{
    lemma_counts_sum(counts, link_ids_of(links, frogol_id), clicks);
    lemma_clicks_on_all_links(links, clicks, frogol_id);
}

/// No more addresses are counted than clicks: the distinct addresses of a
/// profile's clicks are at most as many as its clicks.
pub proof fn lemma_unique_at_most_total(links: Seq<Link>, clicks: Seq<Click>, frogol_id: Seq<char>)
    ensures
        click_addresses(links, clicks, frogol_id).finite(),
        click_addresses(links, clicks, frogol_id).len() <= total_clicks(links, clicks, frogol_id),
    decreases clicks.len(),
{
    if clicks.len() > 0 {
        lemma_unique_at_most_total(links, clicks.drop_last(), frogol_id);
    }
}

} // verus!
