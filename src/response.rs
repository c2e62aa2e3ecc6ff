//! The runtime side: the interface every generated error-code type implements,
//! the response body, and the application error that pairs a code with an
//! optional message override and payload.
use vstd::prelude::*;
use vstd::string::*;

verus! {

#[verifier::external_type_specification]
#[verifier::external_body]
pub struct ExJsonValue(serde_json::Value);

#[verifier::external_type_specification]
#[verifier::external_body]
pub struct ExStatusCode(axum::http::StatusCode);

/// Relies on the derived `Clone` of `serde_json::Value`: the copy equals the
/// value it copies.
pub assume_specification[ <serde_json::Value as Clone>::clone ](v: &serde_json::Value) -> (r:
    serde_json::Value)
    ensures
        r == *v,
;

/// The interface of a generated error-code type.
pub trait ErrorCode: Copy + Clone + core::fmt::Debug + PartialEq + Eq + Send + Sync + 'static {
    /// The numeric code.
    fn code(&self) -> i32;

    /// The message in the default language.
    fn message(&self) -> &'static str;

    /// The message in `lang`, falling back to the default language.
    fn message_lang(&self, lang: &str) -> &'static str;

    /// The protocol status.
    fn http_status(&self) -> axum::http::StatusCode;
}

/// A response body: code, message and optional payload.
#[derive(Debug, Clone)]
pub struct ErrorResponse {
    pub code: i32,
    pub msg: String,
    pub data: Option<serde_json::Value>,
}

impl ErrorResponse {
    /// The body with a code and a message and no payload.
    pub fn from_parts(code: i32, msg: &str) -> (r: Self)
        ensures
            r.code == code,
            r.msg@ == msg@,
            r.data is None,
    {
        ErrorResponse { code, msg: String::from_str(msg), data: None }
    }

    /// The body for an error code: what its `code` and `message` return, and no
    /// payload.
    pub fn from_error_code<E: ErrorCode>(error_code: E) -> (r: Self)
        ensures
            r.data is None,
    {
        Self::from_parts(error_code.code(), error_code.message())
    }

    /// Replaces the message.
    pub fn with_msg(self, msg: &str) -> (r: Self)
        ensures
            r.code == self.code,
            r.msg@ == msg@,
            r.data == self.data,
    {
        ErrorResponse { msg: String::from_str(msg), ..self }
    }

    /// Sets the payload.
    pub fn with_data(self, data: serde_json::Value) -> (r: Self)
        ensures
            r.code == self.code,
            r.msg@ == self.msg@,
            r.data == Some(data),
    {
        ErrorResponse { data: Some(data), ..self }
    }
}

/// An application error: an error code, an optional message that overrides
/// the code's own, and an optional payload.
#[derive(Debug, Clone)]
pub struct AppError<E: ErrorCode> {
    error_code: E,
    custom_msg: Option<String>,
    data: Option<serde_json::Value>,
}

pub struct AppErrorView<E> {
    pub error_code: E,
    pub custom_msg: Option<Seq<char>>,
    pub data: Option<serde_json::Value>,
}

impl<E: ErrorCode> View for AppError<E> {
    type V = AppErrorView<E>;

    closed spec fn view(&self) -> AppErrorView<E> {
        AppErrorView {
            error_code: self.error_code,
            custom_msg: match self.custom_msg {
                Some(m) => Some(m@),
                None => None,
            },
            data: self.data,
        }
    }
}

impl<E: ErrorCode> AppError<E> {
    /// An error with the code's own message and no payload.
    pub fn new(error_code: E) -> (r: Self)
        ensures
            r@ == (AppErrorView { error_code, custom_msg: None, data: None }),
    {
        AppError { error_code, custom_msg: None, data: None }
    }

    /// Overrides the message.
    pub fn with_msg(self, msg: &str) -> (r: Self)
        ensures
            r@ == (AppErrorView { custom_msg: Some(msg@), ..self@ }),
    {
        AppError { custom_msg: Some(String::from_str(msg)), ..self }
    }

    /// Sets the payload.
    pub fn with_data(self, data: serde_json::Value) -> (r: Self)
        ensures
            r@ == (AppErrorView { data: Some(data), ..self@ }),
    {
        AppError { data: Some(data), ..self }
    }

    /// The error code.
    pub fn error_code(&self) -> (r: E)
        ensures
            r == self@.error_code,
    {
        self.error_code
    }

    /// The numeric code of the error code.
    pub fn code(&self) -> i32 {
        self.error_code.code()
    }

    /// The overriding message when there is one, else `own`.
    pub fn msg_or<'a>(&'a self, own: &'a str) -> (r: &'a str)
        ensures
            r@ == match self@.custom_msg {
                Some(m) => m,
                None => own@,
            },
    {
        match &self.custom_msg {
            Some(m) => m.as_str(),
            None => own,
        }
    }

    /// The overriding message when there is one, else the code's own.
    pub fn msg(&self) -> (r: &str)
        ensures
            self@.custom_msg matches Some(m) ==> r@ == m,
    {
        self.msg_or(self.error_code.message())
    }

    /// The payload.
    pub fn data(&self) -> (r: Option<&serde_json::Value>)
        ensures
            match r {
                Some(d) => self@.data == Some(*d),
                None => self@.data is None,
            },
    {
        match &self.data {
            Some(d) => Some(d),
            None => None,
        }
    }

    /// The response body: the code's code and message, with the overriding
    /// message and the payload when there are any.
    pub fn to_response(&self) -> (r: ErrorResponse)
        ensures
            self@.custom_msg matches Some(m) ==> r.msg@ == m,
            r.data == self@.data,
    {
        self.response_with(self.error_code.code(), self.error_code.message())
    }

    /// The response body given what the error code's `code` and `message`
    /// return: that code, the overriding message or else `own_msg`, and the
    /// payload.
    pub fn response_with(&self, code: i32, own_msg: &str) -> (r: ErrorResponse)
        ensures
            r.code == code,
            r.msg@ == match self@.custom_msg {
                Some(m) => m,
                None => own_msg@,
            },
            r.data == self@.data,
    {
        let mut resp = ErrorResponse::from_parts(code, own_msg);
        if let Some(msg) = &self.custom_msg {
            resp = resp.with_msg(msg.as_str());
        }
        if let Some(data) = &self.data {
            resp = resp.with_data(data.clone());
        }
        resp
    }

    /// An error with the code's own message and a payload.
    pub fn with_code_and_data(error_code: E, data: serde_json::Value) -> (r: Self)
        ensures
            r@ == (AppErrorView { error_code, custom_msg: None, data: Some(data) }),
    {
        Self::new(error_code).with_data(data)
    }
}

impl<E: ErrorCode> From<E> for AppError<E> {
    fn from(error_code: E) -> (r: Self) {
        Self::new(error_code)
    }
}

impl<E: ErrorCode> vstd::std_specs::convert::FromSpecImpl<E> for AppError<E> {
    open spec fn obeys_from_spec() -> bool {
        true
    }

    closed spec fn from_spec(v: E) -> Self {
        AppError { error_code: v, custom_msg: None, data: None }
    }
}

} // verus!
