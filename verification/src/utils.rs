//! Small utilities used across the shell.

use vstd::prelude::*;

verus! {

/// The kind of content a webview window displays.
#[derive(Debug, Clone, PartialEq, Eq)]
pub enum ContentType {
    /// A URL, most often a local development server.
    Url(String),
    /// A local file to display.
    File(String),
}

impl ContentType {
    /// The locator the webview is pointed at, whatever its kind.
    pub fn get_content(&self) -> (r: &str)
        ensures
            r@ == self.locator(),
    {
        match self {
            ContentType::File(content) => content.as_str(),
            ContentType::Url(content) => content.as_str(),
        }
    }

    /// The locator carried by either kind of content.
    pub open spec fn locator(&self) -> Seq<char> {
        match self {
            ContentType::File(content) => content@,
            ContentType::Url(content) => content@,
        }
    }
}

/// Whether the shell is running against a development front-end.
///
/// A build of this library serves the development pipeline; bundled
/// releases are produced by the packaging tooling outside this crate.
pub fn is_dev() -> (r: bool)
    ensures
        r,
{
    true
}

} // verus!
