//! The envelope that every answer of the query layer travels in, and the
//! records it carries that hold no prices.

use vstd::prelude::*;
use vstd::string::StringExecFns;

verus! {

/// Success-or-error envelope of an answer.
#[derive(Debug, PartialEq, Eq)]
pub struct ApiResponse<T> {
    pub success: bool,
    pub data: Option<T>,
    pub error: Option<String>,
    pub timestamp: String,
}

/// Trusted: `Utc::now().to_rfc3339()` of chrono, the machine's clock as
/// text. Nothing is claimed of the text.
#[verifier::external_body]
fn utc_now_rfc3339() -> (timestamp: String) {
    chrono::Utc::now().to_rfc3339()
}

impl<T> ApiResponse<T> {
    /// A successful answer that carries `data`, stamped `timestamp`.
    pub fn success_at(data: T, timestamp: String) -> (response: Self)
        ensures
            response.success,
            response.data == Some(data),
            response.error is None,
            response.timestamp == timestamp,
    {
        ApiResponse { success: true, data: Some(data), error: None, timestamp }
    }

    /// A failed answer that carries `message`, stamped `timestamp`.
    pub fn error_at(message: String, timestamp: String) -> (response: Self)
        ensures
            !response.success,
            response.data is None,
            response.error == Some(message),
            response.timestamp == timestamp,
    {
        ApiResponse { success: false, data: None, error: Some(message), timestamp }
    }

    /// A successful answer that carries `data`, stamped with the current time.
    pub fn success(data: T) -> (response: Self)
        ensures
            response.success,
            response.data == Some(data),
            response.error is None,
    {
        Self::success_at(data, utc_now_rfc3339())
    }

    /// A failed answer that carries `message`, stamped with the current time.
    pub fn error(message: String) -> (response: Self)
        ensures
            !response.success,
            response.data is None,
            response.error == Some(message),
    {
        Self::error_at(message, utc_now_rfc3339())
    }
}

/// A company as an answer shows it.
#[derive(Debug, PartialEq, Eq)]
pub struct CompanyResponse {
    pub id: i64,
    pub symbol: String,
    pub isin: String,
    pub series: String,
    pub name: Option<String>,
    pub created_at: String,
    pub updated_at: String,
}

/// The answer of the health probe.
#[derive(Debug, PartialEq, Eq)]
pub struct HealthResponse {
    pub status: String,
    pub timestamp: String,
    pub database_status: String,
    pub version: String,
}

/// What the health probe says of the store.
pub open spec fn database_status_word(connected: bool) -> Seq<char> {
    if connected {
        "connected"@
    } else {
        "disconnected"@
    }
}

impl HealthResponse {
    /// The answer of the health probe: the service is healthy, and the
    /// store is connected or not.
    pub fn report(database_connected: bool, timestamp: String, version: String) -> (health: Self)
        ensures
            health.status@ == "healthy"@,
            health.timestamp == timestamp,
            health.database_status@ == database_status_word(database_connected),
            health.version == version,
    {
        HealthResponse {
            status: String::from_str("healthy"),
            timestamp,
            database_status: String::from_str(
                if database_connected {
                    "connected"
                } else {
                    "disconnected"
                },
            ),
            version,
        }
    }
}

} // verus!
