use vstd::prelude::*;
use vstd::string::StringExecFns;

verus! {

/// The outcome of a failed request, each kind carrying a human-readable message.
#[derive(Debug, Clone)]
pub enum Error {
    BadRequest(String),
    UnAuthorized(String),
    Forbidden(String),
    NotFound(String),
    Conflict(String),
    InternalServerError(String),
}

/// The HTTP status that answers an error of each kind.
pub open spec fn status_of(e: Error) -> u16 {
    match e {
        Error::BadRequest(_) => 400,
        Error::UnAuthorized(_) => 401,
        Error::Forbidden(_) => 403,
        Error::NotFound(_) => 404,
        Error::Conflict(_) => 409,
        Error::InternalServerError(_) => 500,
    }
}

/// The message that an error carries.
pub open spec fn message_of(e: Error) -> Seq<char> {
    match e {
        Error::BadRequest(m) => m@,
        Error::UnAuthorized(m) => m@,
        Error::Forbidden(m) => m@,
        Error::NotFound(m) => m@,
        Error::Conflict(m) => m@,
        Error::InternalServerError(m) => m@,
    }
}

impl Error {
    pub open spec fn is_bad_request(&self) -> bool {
        self is BadRequest
    }

    pub open spec fn is_conflict(&self) -> bool {
        self is Conflict
    }

    /// The HTTP status code of this error.
    pub fn status_code(&self) -> (r: u16)
        ensures
            r == status_of(*self),
    {
        match self {
            Error::BadRequest(_) => 400,
            Error::UnAuthorized(_) => 401,
            Error::Forbidden(_) => 403,
            Error::NotFound(_) => 404,
            Error::Conflict(_) => 409,
            Error::InternalServerError(_) => 500,
        }
    }

    /// The message of this error, moved out.
    pub fn into_message(self) -> (r: String)
        ensures
            r@ == message_of(self),
    {
        match self {
            Error::BadRequest(m) => m,
            Error::UnAuthorized(m) => m,
            Error::Forbidden(m) => m,
            Error::NotFound(m) => m,
            Error::Conflict(m) => m,
            Error::InternalServerError(m) => m,
        }
    }
}

/// A page request for keyset pagination: the last id seen and the page size.
#[derive(Debug, Clone, Copy)]
pub struct PageRequest {
    pub cursor: Option<i64>,
    pub size: Option<i32>,
}

pub const DEFAULT_PAGE_SIZE: i32 = 10;

impl PageRequest {
    /// The requested page size, ten when none was given.
    pub fn size(&self) -> (r: i32)
        ensures
            r == match self.size {
                Some(s) => s,
                None => DEFAULT_PAGE_SIZE,
            },
    {
        if let Some(size) = self.size {
            size
        } else {
            DEFAULT_PAGE_SIZE
        }
    }

    /// The id below which rows are listed; unbounded (the largest id) when none was given.
    pub fn cursor(&self) -> (r: i64)
        ensures
            r == match self.cursor {
                Some(c) => c,
                None => i64::MAX,
            },
    {
        if let Some(cursor) = self.cursor {
            cursor
        } else {
            i64::MAX
        }
    }
}

/// One page of rows, ordered by descending id.
#[derive(Debug, Clone)]
pub struct PageResponse<T> {
    pub data: Vec<T>,
    pub next_cursor: Option<i64>,
    pub size: i32,
}

/// The cursor of the next page: the id of the last row returned, none for an empty page.
pub fn next_cursor_of(ids: &Vec<i64>) -> (r: Option<i64>)
    ensures
        r == if ids@.len() == 0 { None } else { Some(ids@.last()) },
{
    if ids.len() == 0 {
        None
    } else {
        Some(ids[ids.len() - 1])
    }
}

impl<T> PageResponse<T> {
    /// Builds the page from its rows and their ids, in the same order.
    pub fn from_rows(data: Vec<T>, ids: &Vec<i64>, req: &PageRequest) -> (r: PageResponse<T>)
        ensures
            r.data@ == data@,
            r.next_cursor == (if ids@.len() == 0 { None } else { Some(ids@.last()) }),
            r.size == match req.size {
                Some(s) => s,
                None => DEFAULT_PAGE_SIZE,
            },
    {
        PageResponse { data, next_cursor: next_cursor_of(ids), size: req.size() }
    }
}

/// The body of every JSON answer: the data, the status code and a message.
#[derive(Debug, Clone)]
pub struct ApiResponse<T> {
    pub data: T,
    pub status: u16,
    pub message: String,
}

impl<T> ApiResponse<Option<T>> {
    /// A successful answer carrying `data`.
    pub fn success(status: u16, data: T, message: String) -> (r: ApiResponse<Option<T>>)
        ensures
            r.data == Some(data),
            r.status == status,
            r.message@ == message@,
    {
        ApiResponse { data: Some(data), status, message }
    }

    /// A failed answer: no data, the error's status code and its message.
    pub fn from_error(error: Error) -> (r: ApiResponse<Option<T>>)
        ensures
            r.data is None,
            r.status == status_of(error),
            r.message@ == message_of(error),
    {
        let status = error.status_code();
        ApiResponse { data: None, status, message: error.into_message() }
    }

    /// The answer to a result: its data with `status` and `message` on success, else its error.
    pub fn from_result(result: Result<T, Error>, status: u16, message: String) -> (r: ApiResponse<Option<T>>)
        ensures
            match result {
                Ok(d) => r.data == Some(d) && r.status == status && r.message@ == message@,
                Err(e) => r.data is None && r.status == status_of(e) && r.message@ == message_of(e),
            },
    {
        match result {
            Ok(data) => ApiResponse::success(status, data, message),
            Err(error) => ApiResponse::from_error(error),
        }
    }

    /// The answer to a result with status 200 and the message `Success!` on success.
    pub fn from_result_ok(result: Result<T, Error>) -> (r: ApiResponse<Option<T>>)
        ensures
            match result {
                Ok(d) => r.data == Some(d) && r.status == 200 && r.message@ == "Success!"@,
                Err(e) => r.data is None && r.status == status_of(e) && r.message@ == message_of(e),
            },
    {
        ApiResponse::from_result(result, 200, String::from_str("Success!"))
    }
}

} // verus!
