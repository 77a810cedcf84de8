//! The envelope in which every response travels: whether the request
//! succeeded, a message, and the rows, if there are any.

use crate::entity::locations;
use crate::entity::residents;
use crate::entity::timestamps;
use crate::error::ServiceError;
use crate::models::timestamps::PostTimestamp;
use crate::models::timestamps::ResidentTimestamp;
use vstd::prelude::*;

verus! {

#[derive(Debug, PartialEq, Eq)]
pub struct Response<T> {
    pub success: bool,
    pub message: String,
    pub data: Option<Vec<T>>,
}

impl<T> Response<T> {
    /// The response is a success with the message and exactly these rows.
    pub open spec fn carries(self, message: Seq<char>, rows: Seq<T>) -> bool {
        &&& self.success
        &&& self.message@ == message
        &&& self.data matches Some(held) && held@ == rows
    }

    /// The response is a failure with the message and no rows.
    pub open spec fn fails_with(self, message: Seq<char>) -> bool {
        &&& !self.success
        &&& self.message@ == message
        &&& self.data is None
    }

    pub fn from_success(msg: &str) -> (r: Self)
        ensures
            r.success,
            r.message@ == msg@,
            r.data is None,
    {
        Self { success: true, message: msg.to_owned(), data: None }
    }

    pub fn from_error(msg: &str) -> (r: Self)
        ensures
            r.fails_with(msg@),
    {
        Self { success: false, message: msg.to_owned(), data: None }
    }

    pub fn resident_not_found() -> (r: Self)
        ensures
            r.fails_with("Resident not found"@),
    {
        Self { success: false, message: "Resident not found".to_owned(), data: None }
    }

    /// A success that carries the rows under the message.
    pub fn with_rows(msg: &str, rows: Vec<T>) -> (r: Self)
        ensures
            r.carries(msg@, rows@),
            r.data == Some(rows),
    {
        Self { success: true, message: msg.to_owned(), data: Some(rows) }
    }

    /// A success that carries one row under the message.
    pub fn with_row(msg: &str, row: T) -> (r: Self)
        ensures
            r.carries(msg@, seq![row]),
    {
        let mut rows: Vec<T> = Vec::new();
        rows.push(row);
        Self { success: true, message: msg.to_owned(), data: Some(rows) }
    }

    /// What is shown for the response: its message.
    pub fn to_text(&self) -> (text: String)
        ensures
            text@ == self.message@,
    {
        self.message.clone()
    }
}

impl Response<residents::Model> {
    pub fn from_residents(rows: Vec<residents::Model>) -> (r: Self)
        ensures
            r.carries("Residents successfully retrieved"@, rows@),
    {
        Self::with_rows("Residents successfully retrieved", rows)
    }

    pub fn from_resident(row: residents::Model) -> (r: Self)
        ensures
            r.carries("Residents successfully retrived"@, seq![row]),
    {
        Self::with_row("Residents successfully retrived", row)
    }
}

impl Response<timestamps::Model> {
    pub fn from_timestamps(rows: Vec<timestamps::Model>) -> (r: Self)
        ensures
            r.carries("Timestamps successfully retrieved"@, rows@),
    {
        Self::with_rows("Timestamps successfully retrieved", rows)
    }

    pub fn from_timestamp(row: timestamps::Model) -> (r: Self)
        ensures
            r.carries("Timestamp successfully retrieved"@, seq![row]),
    {
        Self::with_row("Timestamp successfully retrieved", row)
    }
}

impl Response<locations::Model> {
    pub fn from_locations(rows: Vec<locations::Model>) -> (r: Self)
        ensures
            r.carries("Location successfully retrieved"@, rows@),
    {
        Self::with_rows("Location successfully retrieved", rows)
    }

    pub fn from_location(row: locations::Model) -> (r: Self)
        ensures
            r.carries("Location successfully retrieved"@, seq![row]),
    {
        Self::with_row("Location successfully retrieved", row)
    }
}

impl Response<ResidentTimestamp> {
    pub fn from_resident_timestamp(row: ResidentTimestamp) -> (r: Self)
        ensures
            r.carries("Resident Timestamp successfully retrieved"@, seq![row]),
    {
        Self::with_row("Resident Timestamp successfully retrieved", row)
    }
}

impl Response<PostTimestamp> {
    pub fn from_post_timestamp(row: PostTimestamp) -> (r: Self)
        ensures
            r.carries("Successfully retrieved timestamp"@, seq![row]),
    {
        Self::with_row("Successfully retrieved timestamp", row)
    }
}

/// What a request comes to: the HTTP status and the envelope, which holds
/// rows of the kind asked for on success and a message on failure.
#[derive(Debug, PartialEq, Eq)]
pub struct Reply<T> {
    pub status: u16,
    pub body: Result<Response<T>, Response<String>>,
}

/// The status of every request that succeeded.
pub const STATUS_OK: u16 = 200;

impl<T> Reply<T> {
    /// The reply is a success with this status, this message and exactly
    /// these rows.
    pub open spec fn is_done(self, status: int, message: Seq<char>, rows: Seq<T>) -> bool {
        &&& self.status == status
        &&& self.body matches Ok(envelope) && envelope.carries(message, rows)
    }

    /// The reply is a success with this status and this message, and holds
    /// no rows.
    pub open spec fn is_plain(self, status: int, message: Seq<char>) -> bool {
        &&& self.status == status
        &&& self.body matches Ok(envelope) && envelope.success && envelope.message@ == message
            && envelope.data is None
    }

    /// The reply is the failure `e` under its status, with this message and
    /// no rows.
    pub open spec fn is_refused(self, e: ServiceError, message: Seq<char>) -> bool {
        &&& self.status == e.spec_status()
        &&& self.body matches Err(envelope) && envelope.fails_with(message)
    }

    pub fn done(status: u16, msg: &str, rows: Vec<T>) -> (r: Self)
        ensures
            r.is_done(status as int, msg@, rows@),
    {
        Reply { status, body: Ok(Response::with_rows(msg, rows)) }
    }

    pub fn done_one(status: u16, msg: &str, row: T) -> (r: Self)
        ensures
            r.is_done(status as int, msg@, seq![row]),
    {
        Reply { status, body: Ok(Response::with_row(msg, row)) }
    }

    pub fn plain(status: u16, msg: &str) -> (r: Self)
        ensures
            r.is_plain(status as int, msg@),
    {
        Reply { status, body: Ok(Response::from_success(msg)) }
    }

    pub fn refused(e: ServiceError, msg: &str) -> (r: Self)
        ensures
            r.is_refused(e, msg@),
    {
        Reply { status: e.status(), body: Err(Response::from_error(msg)) }
    }
}

} // verus!
