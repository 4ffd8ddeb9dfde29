//! The failures that travel upward from the ingestion and query layers.

use vstd::prelude::*;
use vstd::string::StringExecFns;

use crate::nse::client::FetchError;
use crate::text::{decimal_digits, push_decimal};

verus! {

/// Malformed input of a caller. Nothing was done when one is returned.
#[derive(Debug, Clone, Copy, PartialEq, Eq, Structural)]
pub enum ValidationError {
    /// A text that should be a date is neither `YYYY-MM-DD` nor `today`.
    InvalidDate,
    /// A ranking name is none of `gainers`, `losers`, `volume`.
    UnknownMetric,
    /// A data source other than `nse` was asked for.
    UnsupportedSource,
}

/// What a validation error says.
pub open spec fn validation_message(error: ValidationError) -> Seq<char> {
    match error {
        ValidationError::InvalidDate => "Invalid date: expected YYYY-MM-DD or today"@,
        ValidationError::UnknownMetric => "Invalid metric: expected gainers, losers or volume"@,
        ValidationError::UnsupportedSource => "Currently only 'nse' source is supported"@,
    }
}

impl ValidationError {
    /// What the error says.
    pub fn message(self) -> (text: &'static str)
        ensures
            text@ == validation_message(self),
    {
        match self {
            ValidationError::InvalidDate => "Invalid date: expected YYYY-MM-DD or today",
            ValidationError::UnknownMetric => "Invalid metric: expected gainers, losers or volume",
            ValidationError::UnsupportedSource => "Currently only 'nse' source is supported",
        }
    }
}

/// Why the ingestion of one trading day failed.
#[derive(Debug, PartialEq, Eq)]
pub enum IngestFailure {
    /// No source gave an acceptable export.
    Fetch(FetchError),
    /// The export held no valid row.
    NoValidRecords,
    /// The store refused a statement; the text is the store's.
    Storage(String),
}

/// An ingestion failure as mathematics sees it.
pub enum IngestFailureModel {
    Fetch(FetchError),
    NoValidRecords,
    Storage(Seq<char>),
}

impl View for IngestFailure {
    type V = IngestFailureModel;

    open spec fn view(&self) -> IngestFailureModel {
        match self {
            IngestFailure::Fetch(e) => IngestFailureModel::Fetch(*e),
            IngestFailure::NoValidRecords => IngestFailureModel::NoValidRecords,
            IngestFailure::Storage(text) => IngestFailureModel::Storage(text@),
        }
    }
}

/// What a fetch error says.
pub open spec fn fetch_message(error: FetchError) -> Seq<char> {
    match error {
        FetchError::AllStrategiesFailed { attempted } =>
            "Failed to download bhavcopy from any available source. All "@ + decimal_digits(
            attempted as nat,
        ) + " URL strategies failed."@,
    }
}

/// What an ingestion failure says.
pub open spec fn failure_message(failure: IngestFailureModel) -> Seq<char> {
    match failure {
        IngestFailureModel::Fetch(error) => fetch_message(error),
        IngestFailureModel::NoValidRecords => "No valid records found in CSV data"@,
        IngestFailureModel::Storage(text) => text,
    }
}

impl FetchError {
    /// What the error says.
    pub fn message(&self) -> (text: String)
        ensures
            text@ == fetch_message(*self),
    {
        match self {
            FetchError::AllStrategiesFailed { attempted } => {
                let mut text = String::from_str(
                    "Failed to download bhavcopy from any available source. All ",
                );
                push_decimal(&mut text, *attempted as u64);
                text.append(" URL strategies failed.");
                text
            },
        }
    }
}

impl IngestFailure {
    /// What the failure says.
    pub fn message(&self) -> (text: String)
        ensures
            text@ == failure_message(self@),
    {
        match self {
            IngestFailure::Fetch(error) => error.message(),
            IngestFailure::NoValidRecords => String::from_str("No valid records found in CSV data"),
            IngestFailure::Storage(text) => text.clone(),
        }
    }
}

} // verus!
