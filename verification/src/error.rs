//! The ways in which a request can fail.

use vstd::prelude::*;
use vstd::string::*;
use crate::text::{decimal, decimal_digits, prefixed};

verus! {

/// The dataset in which a term was looked for.
#[derive(Clone, Copy, Debug, PartialEq, Eq)]
pub enum Dataset {
    /// The dictionary service.
    Dictionary,
    /// The table of Cantonese readings.
    Romanization,
}

/// Why a request failed.
#[derive(Clone, Debug, PartialEq, Eq)]
pub enum MeowdictError {
    /// The dataset has nothing for the term.
    NotFound(Dataset, String),
    /// The service answered with a status that is neither success nor "not
    /// found".
    ServiceError(u16),
    /// The service answered with something that is not a dictionary record.
    MalformedResponse,
    /// The request did not get through, or its answer did not arrive; the
    /// text says what went wrong.
    Transport(String),
    /// A dataset could not be fetched or stored.
    CacheRefreshError,
    /// No term of the index holds the text that was asked for.
    NoMatch,
    /// The command line or the console input makes no sense; the text says
    /// why.
    InvalidArgument(String),
}

/// A failure, as plain text.
pub enum ErrorView {
    NotFound(Dataset, Seq<char>),
    ServiceError(u16),
    MalformedResponse,
    Transport(Seq<char>),
    CacheRefreshError,
    NoMatch,
    InvalidArgument(Seq<char>),
}

impl DeepView for MeowdictError {
    type V = ErrorView;

    open spec fn deep_view(&self) -> ErrorView {
        match self {
            MeowdictError::NotFound(dataset, term) => ErrorView::NotFound(*dataset, term@),
            MeowdictError::ServiceError(status) => ErrorView::ServiceError(*status),
            MeowdictError::MalformedResponse => ErrorView::MalformedResponse,
            MeowdictError::Transport(why) => ErrorView::Transport(why@),
            MeowdictError::CacheRefreshError => ErrorView::CacheRefreshError,
            MeowdictError::NoMatch => ErrorView::NoMatch,
            MeowdictError::InvalidArgument(why) => ErrorView::InvalidArgument(why@),
        }
    }
}

impl View for MeowdictError {
    type V = ErrorView;

    open spec fn view(&self) -> ErrorView {
        self.deep_view()
    }
}

/// The line that tells the user of a failure.
pub open spec fn message_of(e: ErrorView) -> Seq<char> {
    match e {
        ErrorView::NotFound(Dataset::Dictionary, term) => "Could not find keyword: "@ + term,
        ErrorView::NotFound(Dataset::Romanization, term) => "Cannot find jyutping: "@ + term,
        ErrorView::ServiceError(status) => "Response status code: "@ + decimal_digits(
            status as nat,
        ),
        ErrorView::MalformedResponse => "Cannot read the response of the dictionary"@,
        ErrorView::Transport(why) => why,
        ErrorView::CacheRefreshError => "Cannot refresh the cached dataset"@,
        ErrorView::NoMatch => "Cannot choose one!"@,
        ErrorView::InvalidArgument(why) => why,
    }
}

impl MeowdictError {
    /// The line that tells the user of this failure.
    pub fn message(&self) -> (r: String)
        ensures
            r@ == message_of(self.deep_view()),
    {
        match self {
            MeowdictError::NotFound(Dataset::Dictionary, term) => prefixed(
                "Could not find keyword: ",
                term.as_str(),
            ),
            MeowdictError::NotFound(Dataset::Romanization, term) => prefixed(
                "Cannot find jyutping: ",
                term.as_str(),
            ),
            MeowdictError::ServiceError(status) => {
                let code = decimal(*status as usize);
                prefixed("Response status code: ", code.as_str())
            },
            MeowdictError::MalformedResponse => String::from_str(
                "Cannot read the response of the dictionary",
            ),
            MeowdictError::Transport(why) => why.clone(),
            MeowdictError::CacheRefreshError => String::from_str(
                "Cannot refresh the cached dataset",
            ),
            MeowdictError::NoMatch => String::from_str("Cannot choose one!"),
            MeowdictError::InvalidArgument(why) => why.clone(),
        }
    }
}

} // verus!
