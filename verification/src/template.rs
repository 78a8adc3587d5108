//! The data the pages are rendered from.

use vstd::prelude::*;
use crate::state::DBEntry;

verus! {

/// Figures shown on the index page.
pub struct Stat {
    pub files_serving_count: usize,
    pub storage_used_percent: u64,
    pub version: &'static str,
}

/// The index page: the address of the service and, optionally, its figures.
pub struct IndexTemplate {
    pub domain: String,
    pub stat: Option<Stat>,
}

/// The HTML answer to an upload: the files just stored.
pub struct UrlListTemplate<'a> {
    pub entries: &'a [DBEntry],
}

/// The plain-text answer to an upload: the files just stored.
pub struct UrlListRawTemplate<'a> {
    pub entries: &'a [DBEntry],
}

/// A page to be rendered as an HTML response.
pub struct HtmlTemplate<T>(pub T);

} // verus!
