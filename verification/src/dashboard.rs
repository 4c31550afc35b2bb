//! What the owner's dashboard shows of a profile and its links.

use crate::clicks::{clicks_for, count_for};
use crate::dates::{date_display, format_date};
use crate::frogols::{name_or_default, shown_name, shown_theme, theme_or_default, Frogol};
use crate::links::Link;
use crate::text::{ascii_lower, ascii_lowercase, chars_eq, chars_of};
use vstd::prelude::*;

verus! {

/// A profile as its detail page shows it.
#[derive(Debug)]
pub struct FrogolDetail {
    pub id: String,
    pub slug: String,
    pub display_name: String,
    pub theme: String,
    pub avatar_url: Option<String>,
    pub bio: Option<String>,
    pub created_at: String,
    pub formatted_date: String,
}

/// A link as the detail page of its profile shows it, with its clicks.
#[derive(Debug)]
pub struct LinkDetail {
    pub id: String,
    pub url: String,
    pub label: String,
    pub sort_order: i32,
    pub clicks: i64,
    pub is_active: bool,
}

/// Whether `detail` shows `link` with the clicks that `counts` holds for it.
/// The position is shown in 32 bits; one that does not fit is cut to its low
/// 32 bits.
pub open spec fn shows_link(detail: LinkDetail, link: Link, counts: Seq<(String, i64)>) -> bool {
    &&& detail.id == link.id
    &&& detail.url == link.url
    &&& detail.label == link.label
    &&& detail.sort_order == link.sort_order as i32
    &&& (i32::MIN <= link.sort_order <= i32::MAX ==> detail.sort_order == link.sort_order)
    &&& detail.clicks == count_for(counts, link.id@)
    &&& detail.is_active == link.is_active
}

/// Whether a request asks for the dashboard's rendering of a fragment:
/// whether its `X-View` header says `dashboard`, in whatever case.
pub open spec fn wants_dashboard(view: Option<Seq<char>>) -> bool {
    match view {
        Some(v) => v.map_values(|c: char| ascii_lower(c)) == "dashboard"@,
        None => false,
    }
}

impl FrogolDetail {
    /// What is shown of `frogol`: a profile without a name is shown as
    /// `Frogol`, one without a theme gets `default`, and the date is shown as
    /// [`date_display`] says.
    pub fn from_frogol(frogol: Frogol) -> (detail: FrogolDetail)
        ensures
            detail.id == frogol.id,
            detail.slug == frogol.slug,
            detail.display_name@ == shown_name(frogol.display_name),
            detail.theme@ == shown_theme(frogol.theme),
            detail.avatar_url == frogol.avatar_url,
            detail.bio == frogol.bio,
            detail.created_at == frogol.created_at,
            detail.formatted_date@ == date_display(frogol.created_at@),
    {
        let formatted_date = format_date(frogol.created_at.as_str());
        let theme = theme_or_default(frogol.theme);
        FrogolDetail {
            id: frogol.id,
            slug: frogol.slug,
            display_name: name_or_default(frogol.display_name),
            theme,
            avatar_url: frogol.avatar_url,
            bio: frogol.bio,
            created_at: frogol.created_at,
            formatted_date,
        }
    }
}

impl LinkDetail {
    /// What is shown of `link`, with the clicks that `counts` holds for it
    /// and 0 where it holds none; see [`shows_link`].
    pub fn from_link(link: Link, counts: &Vec<(String, i64)>) -> (detail: LinkDetail)
        ensures
            shows_link(detail, link, counts@),
    {
        let clicks = clicks_for(counts, &link.id);
        LinkDetail {
            id: link.id,
            url: link.url,
            label: link.label,
            sort_order: #[verifier::truncate]
            (link.sort_order as i32),
            clicks,
            is_active: link.is_active,
        }
    }
}

/// What is shown of the links of a profile, in their order.
pub fn link_details(links: Vec<Link>, counts: &Vec<(String, i64)>) -> (details: Vec<LinkDetail>)
    ensures
        details@.len() == links@.len(),
        forall|i: int|
            0 <= i < details@.len() ==> shows_link(#[trigger] details@[i], links@[i], counts@),
{
    let ghost all = links@;
    let mut details: Vec<LinkDetail> = Vec::new();
    for link in it: links
        invariant
            it.seq() == all,
            details@.len() == it.index(),
            forall|i: int|
                0 <= i < details@.len() ==> shows_link(#[trigger] details@[i], all[i], counts@),
    {
        details.push(LinkDetail::from_link(link, counts));
    }
    details
}

/// Whether a request asks for the dashboard's rendering of a fragment; see
/// [`wants_dashboard`]. `view` is the value of its `X-View` header.
pub fn is_dashboard_view(view: Option<&str>) -> (dashboard: bool)
    ensures
        dashboard == wants_dashboard(
            match view {
                Some(v) => Some(v@),
                None => None,
            },
        ),
{
    match view {
        None => false,
        Some(v) => {
            let lowered = ascii_lowercase(&chars_of(v));
            chars_eq(&lowered, &chars_of("dashboard"))
        },
    }
}

} // verus!
