//! The rules of a link-in-bio service, verified.
//!
//! Users publish a profile, a "frogol", under a slug, list links on it in an
//! order of their choosing, and see how often the links were followed and who
//! left an address. This library holds what the service decides and computes;
//! the web layer, the store and the file system stay with its callers, which
//! hand over plain values and get plain values back.
//!
//! - [`slug`] and [`url`] make slugs and link addresses from what users type.
//! - [`link_order`] resolves a reorder request into a complete order.
//! - [`clicks`] counts clicks per profile and per link.
//! - [`leads`], [`frogols`], [`links`] and [`auth`] hold the records and the
//!   rules for creating them; [`dashboard`] what is shown of them.
//! - [`images`] and [`outcomes`] judge uploads and report batches.
//! - [`reorder_request`] and [`csrf`] read and judge requests.
//! - [`text`], [`dates`], [`ids`] and [`errors`] are shared by all of them.

pub mod auth;
pub mod clicks;
pub mod csrf;
pub mod dashboard;
pub mod dates;
pub mod errors;
pub mod frogols;
pub mod ids;
pub mod images;
pub mod leads;
pub mod link_order;
pub mod links;
pub mod outcomes;
pub mod reorder_request;
pub mod slug;
pub mod text;
pub mod url;
