//! Links: the outbound addresses listed on a profile.

use crate::ids::fresh_id;
use crate::url::{has_scheme, normalize_url, url_of};
use vstd::prelude::*;

verus! {

/// A stored link.
#[derive(Debug, Clone)]
pub struct Link {
    pub id: String,
    pub frogol_id: String,
    pub url: String,
    pub label: String,
    pub sort_order: i64,
    pub is_active: bool,
    pub kind: String,
}

/// A link that is about to be stored.
#[derive(Debug)]
pub struct NewLink {
    pub id: String,
    pub frogol_id: String,
    pub url: String,
    pub label: String,
    pub sort_order: i64,
    pub is_active: bool,
    pub kind: String,
}

impl Link {
    /// The link read from a stored row. The row says whether the link is
    /// active by a number, where anything but 0 means that it is. Where the
    /// flag is missing the link is active, and where the kind is missing it
    /// is `link`.
    pub fn from_row(
        id: String,
        frogol_id: String,
        url: String,
        label: String,
        sort_order: i64,
        is_active: Option<i64>,
        kind: Option<String>,
    ) -> (link: Link)
        ensures
            link.id == id,
            link.frogol_id == frogol_id,
            link.url == url,
            link.label == label,
            link.sort_order == sort_order,
            link.is_active == match is_active {
                Some(flag) => flag != 0,
                None => true,
            },
            link.kind@ == match kind {
                Some(k) => k@,
                None => "link"@,
            },
    {
        let active = match is_active {
            Some(flag) => flag != 0,
            None => true,
        };
        let kind = match kind {
            Some(k) => k,
            None => "link".to_owned(),
        };
        Link { id, frogol_id, url, label, sort_order, is_active: active, kind }
    }

    /// How a link is shown in running text: by its label.
    pub fn display_text(&self) -> (text: String)
        ensures
            text@ == self.label@,
    {
        self.label.clone()
    }
}

impl NewLink {
    /// Whether `self` is the link that is added to the profile `frogol_id`
    /// for the typed address `url` and the label `label` at the position
    /// `sort_order`: the address is normalised, the link is active and of the
    /// kind `link`.
    pub open spec fn is_addition(
        &self,
        frogol_id: Seq<char>,
        url: Seq<char>,
        label: Seq<char>,
        sort_order: i64,
    ) -> bool {
        &&& self.frogol_id@ == frogol_id
        &&& self.url@ == url_of(url)
        &&& self.label@ == label
        &&& self.sort_order == sort_order
        &&& self.is_active
        &&& self.kind@ == "link"@
    }

    /// The link with the identifier `id` that is added to a profile; see
    /// [`NewLink::is_addition`].
    pub fn with_id(id: String, frogol_id: &str, url: &str, label: &str, sort_order: i64) -> (link:
        NewLink)
        ensures
            link.id == id,
            link.is_addition(frogol_id@, url@, label@, sort_order),
            has_scheme(link.url@),
    {
        NewLink {
            id,
            frogol_id: frogol_id.to_owned(),
            url: normalize_url(url),
            label: label.to_owned(),
            sort_order,
            is_active: true,
            kind: "link".to_owned(),
        }
    }

    /// A link that is added to a profile, under a fresh random identifier;
    /// see [`NewLink::is_addition`]. `sort_order` is the position behind the
    /// profile's last link.
    pub fn prepare(frogol_id: &str, url: &str, label: &str, sort_order: i64) -> (link: NewLink)
        ensures
            link.is_addition(frogol_id@, url@, label@, sort_order),
            has_scheme(link.url@),
    {
        NewLink::with_id(fresh_id(), frogol_id, url, label, sort_order)
    }
}

/// What is stored for a change of a link: its new address and label.
#[derive(Debug)]
pub struct LinkChange {
    pub url: String,
    pub label: String,
}

/// Whether a request to change a link hides it: whether it sets the link
/// inactive. A hidden link is not changed any further.
pub fn hides_link(is_active: Option<bool>) -> (hidden: bool)
    ensures
        hidden == (is_active == Some(false)),
{
    match is_active {
        Some(active) => !active,
        None => false,
    }
}

/// The change to store for a request that sends the address `url` and the
/// label `label`, either of which may be missing. A request that sends
/// neither changes nothing. Otherwise what is missing is taken from the link
/// as it is stored, and the address is normalised.
pub fn link_change(existing: &Link, url: Option<&str>, label: Option<&str>) -> (change: Option<
    LinkChange,
>)
    ensures
        match change {
            None => url is None && label is None,
            Some(c) => (url is Some || label is Some) && c.url@ == url_of(
                match url {
                    Some(u) => u@,
                    None => existing.url@,
                },
            ) && c.label@ == (match label {
                Some(l) => l@,
                None => existing.label@,
            }) && has_scheme(c.url@),
        },
{
    if url.is_none() && label.is_none() {
        return None;
    }
    let new_url = match url {
        Some(u) => normalize_url(u),
        None => normalize_url(existing.url.as_str()),
    };
    let new_label = match label {
        Some(l) => l.to_owned(),
        None => existing.label.clone(),
    };
    Some(LinkChange { url: new_url, label: new_label })
}

/// The position behind the last link of a profile: one more than the largest
/// position among its links, and 0 for a profile without links.
pub fn next_sort_order(largest: Option<i64>) -> (next: i64)
    requires
        largest matches Some(m) ==> m < i64::MAX,
    ensures
        next == match largest {
            Some(m) => m + 1,
            None => 0,
        },
{
    match largest {
        Some(m) => m + 1,
        None => 0,
    }
}

} // verus!
