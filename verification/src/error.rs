//! Why a scrape, or a part of one, did not yield its data.

use vstd::prelude::*;

verus! {

/// The ways in which a scrape can fail.
#[derive(Clone, Copy, Debug, PartialEq, Eq, Structural)]
pub enum ScrapeError {
    /// The token could not be had, or the device turned the credentials down.
    AuthenticationFailure,
    /// A request did not reach the device, or its answer could not be read.
    TransportFailure,
    /// None of the candidate paths of a page served an acceptable body.
    PageNotFound,
    /// A page does not hold the construct looked for, or the construct has
    /// too few arguments or one that is no number where one is needed.
    ExtractionFailure,
}

impl ScrapeError {
    /// A sentence for logs and messages.
    pub fn message(&self) -> (r: &'static str)
        ensures
            r@ == match *self {
                ScrapeError::AuthenticationFailure => "authentication failed"@,
                ScrapeError::TransportFailure => "the device could not be reached"@,
                ScrapeError::PageNotFound => "no candidate path served the page"@,
                ScrapeError::ExtractionFailure => "the page does not hold the expected data"@,
            },
    {
        match self {
            ScrapeError::AuthenticationFailure => "authentication failed",
            ScrapeError::TransportFailure => "the device could not be reached",
            ScrapeError::PageNotFound => "no candidate path served the page",
            ScrapeError::ExtractionFailure => "the page does not hold the expected data",
        }
    }
}

} // verus!
