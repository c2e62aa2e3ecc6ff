use biz_error::{AppError, ErrorCode, ErrorResponse};

#[derive(Debug, Clone, Copy, PartialEq, Eq)]
enum Code {
    InvalidParam,
    NotFound,
}

impl ErrorCode for Code {
    fn code(&self) -> i32 {
        match self {
            Code::InvalidParam => 4000,
            Code::NotFound => 4004,
        }
    }

    fn message(&self) -> &'static str {
        self.message_lang("en")
    }

    fn message_lang(&self, lang: &str) -> &'static str {
        match (self, lang) {
            (Code::InvalidParam, "zh-CN") => "参数无效",
            (Code::InvalidParam, _) => "INVALID PARAMETER",
            (Code::NotFound, _) => "NOT FOUND",
        }
    }

    fn http_status(&self) -> axum::http::StatusCode {
        match self {
            Code::InvalidParam => axum::http::StatusCode::from_u16(400).unwrap(),
            Code::NotFound => axum::http::StatusCode::from_u16(404).unwrap(),
        }
    }
}

#[test]
fn app_error_defaults_to_code_message() {
    let e = AppError::new(Code::InvalidParam);
    assert_eq!(e.error_code(), Code::InvalidParam);
    assert_eq!(e.code(), 4000);
    assert_eq!(e.msg(), "INVALID PARAMETER");
    assert!(e.data().is_none());
    let e: AppError<Code> = Code::NotFound.into();
    assert_eq!(e.msg(), "NOT FOUND");
}

#[test]
fn app_error_overrides_message_and_data() {
    let data = serde_json::Value::String("user_id".to_string());
    let e = AppError::new(Code::NotFound).with_msg("user 7 missing").with_data(data.clone());
    assert_eq!(e.msg(), "user 7 missing");
    assert_eq!(e.data(), Some(&data));
    let r = e.to_response();
    assert_eq!(r.code, 4004);
    assert_eq!(r.msg, "user 7 missing");
    assert_eq!(r.data, Some(data));
    assert_eq!(Code::NotFound.http_status().as_u16(), 404);
}

#[test]
fn response_from_code_without_overrides() {
    let r = AppError::new(Code::InvalidParam).to_response();
    assert_eq!((r.code, r.msg.as_str(), r.data.is_none()), (4000, "INVALID PARAMETER", true));
    let e = AppError::with_code_and_data(Code::InvalidParam, serde_json::Value::Bool(true));
    assert_eq!(e.msg(), "INVALID PARAMETER");
    assert_eq!(e.data(), Some(&serde_json::Value::Bool(true)));
    let r = ErrorResponse::from_error_code(Code::InvalidParam).with_msg("x");
    assert_eq!((r.code, r.msg.as_str()), (4000, "x"));
}

#[test]
fn response_parts_and_fallback_message() {
    let r = ErrorResponse::from_parts(7, "seven");
    assert_eq!((r.code, r.msg.as_str(), r.data.is_none()), (7, "seven", true));
    let e = AppError::new(Code::NotFound);
    assert_eq!(e.msg_or("own"), "own");
    let r = e.response_with(1, "own");
    assert_eq!((r.code, r.msg.as_str(), r.data.is_none()), (1, "own", true));
    let e = e.with_msg("custom").with_data(serde_json::Value::Bool(false));
    assert_eq!(e.msg_or("own"), "custom");
    let r = e.response_with(2, "own");
    assert_eq!((r.code, r.msg.as_str()), (2, "custom"));
    assert_eq!(r.data, Some(serde_json::Value::Bool(false)));
}
