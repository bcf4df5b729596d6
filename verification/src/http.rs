//! The answers of the price service, and the request flow of the crawlers:
//! a request is sent again while its answer is not a success, three times at most.

use vstd::prelude::*;

verus! {

/// How a request is sent.
pub enum Method {
    Get,
    PostJson,
}

/// The answer of the price service: status 0 and "ok" with the data found, or
/// status 1 with the reason of the failure.
pub struct Response<T> {
    pub status: u8,
    pub message: String,
    pub data: Option<Vec<T>>,
}

impl<T> Response<T> {
    /// A successful answer carrying `data`.
    pub fn ok(data: Vec<T>) -> (r: Self)
        ensures
            r.status == 0,
            r.message@ == "ok"@,
            r.data == Some(data),
    {
        Response { status: 0, message: String::from_str("ok"), data: Some(data) }
    }

    /// A successful answer without data.
    pub fn ok_without_data() -> (r: Self)
        ensures
            r.status == 0,
            r.message@ == "ok"@,
            r.data is None,
    {
        Response { status: 0, message: String::from_str("ok"), data: None }
    }

    /// A failed answer, with its reason.
    pub fn fail(message: String) -> (r: Self)
        ensures
            r.status == 1,
            r.message@ == message@,
            r.data is None,
    {
        Response { status: 1, message, data: None }
    }

    /// The answer to a query: successful with the data found, or failed with the
    /// reason (the error's text) when the query failed.
    pub fn new(result: Result<Vec<T>, String>) -> (r: Self)
        ensures
            match result {
                Ok(data) => r.status == 0 && r.message@ == "ok"@ && r.data == Some(data),
                Err(e) => r.status == 1 && r.message@ == e@ && r.data is None,
            },
    {
        match result {
            Ok(data) => Self::ok(data),
            Err(e) => Self::fail(e),
        }
    }
}

/// The most times one request is sent.
pub const MAX_SENDS: u32 = 3;

/// The sends of one request so far.
pub struct Attempts {
    sent: u32,
}

impl Attempts {
    /// How many times the request has been sent.
    pub closed spec fn count(&self) -> nat {
        self.sent as nat
    }

    /// The request has been sent at least once and at most [`MAX_SENDS`] times.
    pub open spec fn wf(&self) -> bool {
        1 <= self.count() <= MAX_SENDS
    }

    /// The request has been sent once.
    pub fn first() -> (r: Self)
        ensures
            r.count() == 1,
            r.wf(),
    {
        Attempts { sent: 1 }
    }

    /// How many times the request has been sent.
    pub fn sent(&self) -> (r: u32)
        ensures
            r == self.count(),
    {
        self.sent
    }

    /// After an answer with `status`: whether to send the request again (when
    /// the status is not 200 and it was sent fewer than three times), counting
    /// the new send.
    pub fn send_again(&mut self, status: u16) -> (again: bool)
        requires
            old(self).wf(),
        ensures
            again == (status != 200 && old(self).count() < MAX_SENDS),
            final(self).count() == if again {
                old(self).count() + 1
            } else {
                old(self).count()
            },
            final(self).wf(),
    {
        if status != 200 && self.sent < MAX_SENDS {
            self.sent = self.sent + 1;
            true
        } else {
            false
        }
    }
}

} // verus!
