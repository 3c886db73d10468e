//! The error value that every fallible operation of the library returns.
use vstd::prelude::*;
use crate::text::{concat2, owned, str_eq};

verus! {

/// An error with a stable machine code, a user-facing message and an
/// optional detail. It never carries tokens, HTTP bodies or JSON contents.
pub struct AppError {
    pub code: String,
    pub message: String,
    pub detail: Option<String>,
}

pub struct AppErrorV {
    pub code: Seq<char>,
    pub message: Seq<char>,
    pub detail: Option<Seq<char>>,
}

impl View for AppError {
    type V = AppErrorV;

    open spec fn view(&self) -> AppErrorV {
        AppErrorV {
            code: self.code@,
            message: self.message@,
            detail: match self.detail {
                Some(d) => Some(d@),
                None => None,
            },
        }
    }
}

/// The error with the given code and message and no detail.
pub open spec fn app_error(code: Seq<char>, message: Seq<char>) -> AppErrorV {
    AppErrorV { code, message, detail: None }
}

/// The view of a result's error, if any.
pub open spec fn err_view<T>(r: Result<T, AppError>) -> Option<AppErrorV> {
    match r {
        Ok(_) => None,
        Err(e) => Some(e@),
    }
}

/// The error that file access reports for an OS error kind, given by the
/// name of the kind (`PermissionDenied`, `NotFound`, ...).
pub open spec fn io_error(path: Seq<char>, kind: Seq<char>) -> AppErrorV {
    AppErrorV {
        code: if kind == "PermissionDenied"@ {
            "FILE_PERMISSION"@
        } else {
            "FILE_IO"@
        },
        message: "无法访问 "@ + path,
        detail: Some(kind),
    }
}

impl AppError {
    pub fn new(code: &str, message: &str) -> (r: AppError)
        ensures
            r@ == app_error(code@, message@),
    {
        AppError { code: owned(code), message: owned(message), detail: None }
    }

    /// The error for a failed file access: only the path and the name of the
    /// OS error kind are kept.
    pub fn io(path: &str, kind: &str) -> (r: AppError)
        ensures
            r@ == io_error(path@, kind@),
    {
        let code = if str_eq(kind, "PermissionDenied") {
            owned("FILE_PERMISSION")
        } else {
            owned("FILE_IO")
        };
        AppError { code, message: concat2("无法访问 ", path), detail: Some(owned(kind)) }
    }

    /// A copy of the error.
    pub fn duplicate(&self) -> (r: AppError)
        ensures
            r@ == self@,
    {
        AppError {
            code: self.code.clone(),
            message: self.message.clone(),
            detail: match &self.detail {
                Some(d) => Some(d.clone()),
                None => None,
            },
        }
    }

    /// `code: message`, the text that the error displays.
    pub fn to_text(&self) -> (r: String)
        ensures
            r@ == self.code@ + ": "@ + self.message@,
    {
        let mut r = self.code.clone();
        r.append(": ");
        r.append(self.message.as_str());
        r
    }
}

/// The error when the system clock reads a time before 1970 or beyond the
/// dates that can be represented.
pub open spec fn clock_error() -> AppErrorV {
    app_error("CLOCK_UNAVAILABLE"@, "系统时间无效，请检查系统时钟"@)
}

pub fn clock_unavailable() -> (r: AppError)
    ensures
        r@ == clock_error(),
{
    AppError::new("CLOCK_UNAVAILABLE", "系统时间无效，请检查系统时钟")
}

/// The error when the operating system's random source fails.
pub open spec fn random_error() -> AppErrorV {
    app_error("RANDOM_UNAVAILABLE"@, "系统随机数源不可用"@)
}

pub fn random_unavailable() -> (r: AppError)
    ensures
        r@ == random_error(),
{
    AppError::new("RANDOM_UNAVAILABLE", "系统随机数源不可用")
}

} // verus!
