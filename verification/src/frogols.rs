//! Profiles ("frogols"): a user's public page, published under its slug.

use crate::dates::{date_display, format_date};
use crate::errors::{AppError, ErrorKind};
use crate::ids::fresh_id;
use crate::slug::{
    is_slug, lemma_normalized_is_slug, lemma_slug_is_fixed_point, normalize_slug, normalized,
    slug_candidate,
};
use vstd::prelude::*;

verus! {

/// A stored profile.
#[derive(Debug, Clone)]
pub struct Frogol {
    pub id: String,
    pub user_id: String,
    pub slug: String,
    pub display_name: Option<String>,
    pub theme: Option<String>,
    pub avatar_url: Option<String>,
    pub bio: Option<String>,
    pub created_at: String,
}

/// A profile that is about to be stored.
#[derive(Debug)]
pub struct NewFrogol {
    pub id: String,
    pub user_id: String,
    pub slug: String,
    pub display_name: Option<String>,
}

/// A profile as the list of a user's profiles shows it, with its counts.
#[derive(Debug)]
pub struct FrogolSummary {
    pub id: String,
    pub slug: String,
    pub display_name: String,
    pub total_links: i64,
    pub total_leads: i64,
    pub total_clicks: i64,
    pub created_at: String,
    pub formatted_date: String,
}

/// The counts of all that a user owns, and the user's best profiles.
#[derive(Debug)]
pub struct UserAnalytics {
    pub total_frogols: i64,
    pub total_links: i64,
    pub total_leads: i64,
    pub total_clicks: i64,
    pub top_performing_frogols: Vec<FrogolSummary>,
}

/// The name shown for a profile: its own, or `Frogol` where it has none.
pub open spec fn shown_name(display_name: Option<String>) -> Seq<char> {
    match display_name {
        Some(name) => name@,
        None => "Frogol"@,
    }
}

/// Gives the name shown for a profile; see [`shown_name`].
pub fn name_or_default(display_name: Option<String>) -> (name: String)
    ensures
        name@ == shown_name(display_name),
{
    match display_name {
        Some(name) => name,
        None => "Frogol".to_owned(),
    }
}

/// The theme of a profile: its own, or `default` where it has none.
pub open spec fn shown_theme(theme: Option<String>) -> Seq<char> {
    match theme {
        Some(t) => t@,
        None => "default"@,
    }
}

/// Gives the theme of a profile; see [`shown_theme`].
pub fn theme_or_default(theme: Option<String>) -> (shown: String)
    ensures
        shown@ == shown_theme(theme),
{
    match theme {
        Some(t) => t,
        None => "default".to_owned(),
    }
}

/// The heading of a profile's public page: its name, or nothing where it has
/// none.
pub fn public_heading(display_name: Option<String>) -> (heading: String)
    ensures
        heading@ == match display_name {
            Some(name) => name@,
            None => Seq::<char>::empty(),
        },
{
    match display_name {
        Some(name) => name,
        None => String::new(),
    }
}

impl NewFrogol {
    /// Whether `self` is the profile that the user `user_id` creates under the
    /// typed slug `raw_slug` with the name `display_name`: it carries the slug
    /// made from what was typed.
    pub open spec fn is_creation(
        &self,
        user_id: Seq<char>,
        raw_slug: Seq<char>,
        display_name: Seq<char>,
    ) -> bool {
        &&& self.user_id@ == user_id
        &&& normalized(raw_slug) == Some(self.slug@)
        &&& self.display_name matches Some(name)
        &&& name@ == display_name
    }

    /// The profile created under the identifier `id`; see
    /// [`NewFrogol::is_creation`]. Fails as [`normalize_slug`] does, and on
    /// the same inputs.
    pub fn with_id(id: String, user_id: &str, raw_slug: &str, display_name: &str) -> (r: Result<
        NewFrogol,
        AppError,
    >)
        ensures
            r is Ok <==> normalized(raw_slug@) is Some,
            r matches Ok(frogol) ==> frogol.id == id && frogol.is_creation(
                user_id@,
                raw_slug@,
                display_name@,
            ) && is_slug(frogol.slug@),
            r matches Err(e) ==> e.reports(
                ErrorKind::InvalidInput,
                if slug_candidate(raw_slug@).len() == 0 {
                    "Invalid slug"@
                } else {
                    "Slug is reserved"@
                },
            ),
    {
        match normalize_slug(raw_slug) {
            Err(e) => Err(e),
            Ok(slug) => Ok(
                NewFrogol {
                    id,
                    user_id: user_id.to_owned(),
                    slug,
                    display_name: Some(display_name.to_owned()),
                },
            ),
        }
    }

    /// The profile that a user creates, under a fresh random identifier; see
    /// [`NewFrogol::is_creation`]. Fails as [`normalize_slug`] does, and on
    /// the same inputs.
    pub fn prepare(user_id: &str, raw_slug: &str, display_name: &str) -> (r: Result<
        NewFrogol,
        AppError,
    >)
        ensures
            r is Ok <==> normalized(raw_slug@) is Some,
            r matches Ok(frogol) ==> frogol.is_creation(user_id@, raw_slug@, display_name@)
                && is_slug(frogol.slug@),
            r matches Err(e) ==> e.reports(
                ErrorKind::InvalidInput,
                if slug_candidate(raw_slug@).len() == 0 {
                    "Invalid slug"@
                } else {
                    "Slug is reserved"@
                },
            ),
    {
        NewFrogol::with_id(fresh_id(), user_id, raw_slug, display_name)
    }
}

/// Refuses a slug that a lookup found in use, with `InvalidInput`,
/// `Slug already exists`. The lookup comes before the insert and is no guard
/// against two creations at once: the store's own constraint is.
pub fn ensure_slug_free(found: bool) -> (r: Result<(), AppError>)
    ensures
        r is Ok <==> !found,
        r matches Err(e) ==> e.reports(ErrorKind::InvalidInput, "Slug already exists"@),
{
    if found {
        Err(AppError::InvalidInput("Slug already exists".to_owned()))
    } else {
        Ok(())
    }
}

impl FrogolSummary {
    /// The summary read from a stored row and its counts. A profile without
    /// a name is shown as `Frogol`; the date is shown as [`date_display`]
    /// says.
    pub fn from_row(
        id: String,
        slug: String,
        display_name: Option<String>,
        created_at: String,
        total_links: i64,
        total_leads: i64,
        total_clicks: i64,
    ) -> (summary: FrogolSummary)
        ensures
            summary.id == id,
            summary.slug == slug,
            summary.display_name@ == shown_name(display_name),
            summary.total_links == total_links,
            summary.total_leads == total_leads,
            summary.total_clicks == total_clicks,
            summary.created_at == created_at,
            summary.formatted_date@ == date_display(created_at@),
    {
        let formatted_date = format_date(created_at.as_str());
        FrogolSummary {
            id,
            slug,
            display_name: name_or_default(display_name),
            total_links,
            total_leads,
            total_clicks,
            created_at,
            formatted_date,
        }
    }
}

/// The slug of a created profile is a well-formed slug and is the slug made
/// of itself: whoever types it again to look the profile up asks for the very
/// slug that was stored.
pub proof fn lemma_created_slug_is_stable(
    frogol: NewFrogol,
    user_id: Seq<char>,
    raw_slug: Seq<char>,
    display_name: Seq<char>,
)
    requires
        frogol.is_creation(user_id, raw_slug, display_name),
    ensures
        is_slug(frogol.slug@),
        normalized(frogol.slug@) == Some(frogol.slug@),
{
    lemma_normalized_is_slug(raw_slug);
    lemma_slug_is_fixed_point(frogol.slug@);
}

} // verus!
