//! `GET /earthquakes` and `GET /earthquakes/{id}`: their filters, and the
//! answers they give.

use vstd::prelude::*;

verus! {

/// Filters of `GET /earthquakes`. The magnitudes are held as the IEEE 754
/// bits of their `f32` values; dates are times in milliseconds.
#[derive(Debug, Clone, PartialEq, Eq)]
pub struct EarthquakeQuery {
    pub min_magnitude: Option<u32>,
    pub max_magnitude: Option<u32>,
    pub start_date: Option<i64>,
    pub end_date: Option<i64>,
    pub limit: Option<i64>,
}

/// How a read of the store ended.
#[derive(Debug, Clone, PartialEq, Eq)]
pub enum ReadOutcome {
    /// The read gave its rows.
    Rows,
    /// The read asked for one row, and there is none.
    NoRow,
    /// The store failed.
    Failure,
}

/// The status of an answer, and the error it names when it is not a success.
#[derive(Debug, Clone, PartialEq, Eq)]
pub struct Reply {
    pub status: u16,
    pub error: Option<String>,
}

impl Reply {
    /// The error the answer names, as text.
    pub open spec fn error_text(&self) -> Option<Seq<char>> {
        match self.error {
            Some(e) => Some(e@),
            None => None,
        }
    }
}

/// The answer of `GET /earthquakes`: 200 with the rows, or 500 naming
/// `failed_to_fetch_recent_earthquakes`.
pub open spec fn list_answer(outcome: ReadOutcome) -> (u16, Option<Seq<char>>) {
    match outcome {
        ReadOutcome::Rows => (200, None),
        _ => (500, Some("failed_to_fetch_recent_earthquakes"@)),
    }
}

/// The answer of `GET /earthquakes/{id}`: 200 with the earthquake, 404 naming
/// `earthquake_not_found` when there is none with that id, or 500 naming
/// `internal_server_error`.
pub open spec fn by_id_answer(outcome: ReadOutcome) -> (u16, Option<Seq<char>>) {
    match outcome {
        ReadOutcome::Rows => (200, None),
        ReadOutcome::NoRow => (404, Some("earthquake_not_found"@)),
        ReadOutcome::Failure => (500, Some("internal_server_error"@)),
    }
}

/// The answer of `GET /earthquakes` after a read that ended in `outcome`.
pub fn list_reply(outcome: ReadOutcome) -> (reply: Reply)
    ensures
        (reply.status, reply.error_text()) == list_answer(outcome),
{
    match outcome {
        ReadOutcome::Rows => Reply { status: 200, error: None },
        _ => Reply { status: 500, error: Some("failed_to_fetch_recent_earthquakes".to_owned()) },
    }
}

/// The answer of `GET /earthquakes/{id}` after a read that ended in `outcome`.
pub fn by_id_reply(outcome: ReadOutcome) -> (reply: Reply)
    ensures
        (reply.status, reply.error_text()) == by_id_answer(outcome),
{
    match outcome {
        ReadOutcome::Rows => Reply { status: 200, error: None },
        ReadOutcome::NoRow => Reply { status: 404, error: Some("earthquake_not_found".to_owned()) },
        ReadOutcome::Failure => Reply { status: 500, error: Some("internal_server_error".to_owned()) },
    }
}

} // verus!
