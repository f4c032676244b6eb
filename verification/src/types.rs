//! Plain result types of the API.
use vstd::prelude::*;

verus! {

/// A phone number that failed local pre-validation.
#[derive(Debug, Clone, PartialEq)]
pub struct InvalidEntry {
    pub input: String,
    pub error: String,
}

impl InvalidEntry {
    /// The entry as `(input, error)` text.
    pub open spec fn view_pair(&self) -> (Seq<char>, Seq<char>) {
        (self.input@, self.error@)
    }
}

/// A single batch error in a bulk send.
#[derive(Debug, Clone)]
pub struct BatchError {
    pub batch: u32,
    pub code: String,
    pub description: String,
    pub action: Option<String>,
}

/// Result of `senderids()`.
#[derive(Debug, Clone)]
pub struct SenderIdResult {
    pub result: String,
    pub senderids: Vec<String>,
    pub code: Option<String>,
    pub description: Option<String>,
    pub action: Option<String>,
}

/// Result of `coverage()`.
#[derive(Debug, Clone)]
pub struct CoverageResult {
    pub result: String,
    pub prefixes: Vec<String>,
    pub code: Option<String>,
    pub description: Option<String>,
    pub action: Option<String>,
}

/// Result of `status()`.
#[derive(Debug, Clone)]
pub struct StatusResult {
    pub result: String,
    pub status: Option<String>,
    pub description: Option<String>,
    pub code: Option<String>,
    pub action: Option<String>,
}

/// A single DLR report entry.
#[derive(Debug, Clone)]
pub struct DlrEntry {
    pub number: Option<String>,
    pub status: Option<String>,
}

/// Result of `dlr()`.
#[derive(Debug, Clone)]
pub struct DlrResult {
    pub result: String,
    pub report: Vec<DlrEntry>,
    pub code: Option<String>,
    pub description: Option<String>,
    pub action: Option<String>,
}

} // verus!
