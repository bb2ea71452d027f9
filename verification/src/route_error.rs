//! The ways in which routing a request can fail.

use vstd::prelude::*;
use crate::pattern::{PatternError, PatternErrorView};
use crate::template::{FillError, FillErrorView, fill_error_text};

verus! {

/// Why no destination could be computed for a URL.
#[derive(Debug)]
pub enum RouteError {
    /// A pattern could not be run against the URL.
    Pattern(PatternError),
    /// The pattern of a mapping matched the URL when tested, but yielded no
    /// captures when executed.
    NoCaptures { url: String },
    /// The template of the mapping could not be filled.
    Fill(FillError),
}

/// The mathematical content of a [`RouteError`].
pub enum RouteErrorView {
    Pattern(PatternErrorView),
    NoCaptures { url: Seq<char> },
    Fill(FillErrorView),
}

impl View for RouteError {
    type V = RouteErrorView;

    open spec fn view(&self) -> RouteErrorView {
        match self {
            RouteError::Pattern(error) => RouteErrorView::Pattern(error@),
            RouteError::NoCaptures { url } => RouteErrorView::NoCaptures { url: url@ },
            RouteError::Fill(error) => RouteErrorView::Fill(error@),
        }
    }
}

/// The text of a pattern error.
pub open spec fn pattern_error_text(error: PatternErrorView) -> Seq<char> {
    match error {
        PatternErrorView::Compile { pattern } => "Could not parse url pattern "@ + pattern,
        PatternErrorView::Match { pattern, url } => "Could not match url pattern "@ + pattern + " against "@
            + url,
    }
}

/// The text of a route error.
pub open spec fn route_error_text(error: RouteErrorView) -> Seq<char> {
    match error {
        RouteErrorView::Pattern(error) => pattern_error_text(error),
        RouteErrorView::NoCaptures { url } => "Could not extract variables from input url "@ + url
            + " using pattern"@,
        RouteErrorView::Fill(error) => fill_error_text(error),
    }
}

impl PatternError {
    /// A description of the error, naming the pattern concerned.
    pub fn message(&self) -> (res: String)
        ensures
            res@ == pattern_error_text(self@),
    {
        match self {
            PatternError::Compile { pattern } => {
                let mut res = "Could not parse url pattern ".to_owned();
                res.append(pattern.as_str());
                res
            },
            PatternError::Match { pattern, url } => {
                let mut res = "Could not match url pattern ".to_owned();
                res.append(pattern.as_str());
                res.append(" against ");
                res.append(url.as_str());
                res
            },
        }
    }
}

impl RouteError {
    /// A description of the error.
    pub fn message(&self) -> (res: String)
        ensures
            res@ == route_error_text(self@),
    {
        match self {
            RouteError::Pattern(error) => error.message(),
            RouteError::NoCaptures { url } => {
                let mut res = "Could not extract variables from input url ".to_owned();
                res.append(url.as_str());
                res.append(" using pattern");
                res
            },
            RouteError::Fill(error) => error.message(),
        }
    }
}

} // verus!
