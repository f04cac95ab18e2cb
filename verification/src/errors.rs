//! The error taxonomy of the service: every failure a core operation can
//! report, the HTTP status each one maps to, and the human-readable message
//! carried to the client.

use vstd::prelude::*;
use vstd::string::StringExecFns;

verus! {

/// Classified failure of a core operation. `Validation` covers malformed or
/// empty input, `Unauthorized` a missing, expired or invalid session,
/// `Forbidden` an authenticated caller without the needed right, `Conflict` a
/// uniqueness violation, `NotFound` a missing resource, `PasswordHash` a
/// credential-hasher failure and `Internal` any other unexpected failure.
#[derive(Debug)]
pub enum ApiError {
    Unauthorized,
    Forbidden,
    Validation(String),
    Conflict(String),
    NotFound,
    PasswordHash(String),
    Internal(String),
}

impl ApiError {
    /// The HTTP status code each error class maps to.
    pub open spec fn status_spec(self) -> u16 {
        match self {
            ApiError::Validation(_) => 400,
            ApiError::Unauthorized => 401,
            ApiError::Forbidden => 403,
            ApiError::NotFound => 404,
            ApiError::Conflict(_) => 409,
            ApiError::PasswordHash(_) => 500,
            ApiError::Internal(_) => 500,
        }
    }

    pub fn status_code(&self) -> (code: u16)
        ensures
            code == self.status_spec(),
    {
        match self {
            ApiError::Validation(_) => 400,
            ApiError::Unauthorized => 401,
            ApiError::Forbidden => 403,
            ApiError::NotFound => 404,
            ApiError::Conflict(_) => 409,
            ApiError::PasswordHash(_) => 500,
            ApiError::Internal(_) => 500,
        }
    }

    /// The message shown to the client: a class prefix, and the detail where
    /// the class carries one.
    pub open spec fn message_spec(self) -> Seq<char> {
        match self {
            ApiError::Unauthorized => "未授权"@,
            ApiError::Forbidden => "禁止访问"@,
            ApiError::Validation(d) => "请求参数错误: "@ + d@,
            ApiError::Conflict(d) => "冲突: "@ + d@,
            ApiError::NotFound => "资源不存在"@,
            ApiError::PasswordHash(d) => "密码处理失败: "@ + d@,
            ApiError::Internal(d) => "服务器内部错误: "@ + d@,
        }
    }

    pub fn message(&self) -> (m: String)
        ensures
            m@ == self.message_spec(),
    {
        match self {
            ApiError::Unauthorized => "未授权".to_owned(),
            ApiError::Forbidden => "禁止访问".to_owned(),
            ApiError::Validation(d) => "请求参数错误: ".to_owned().concat(d.as_str()),
            ApiError::Conflict(d) => "冲突: ".to_owned().concat(d.as_str()),
            ApiError::NotFound => "资源不存在".to_owned(),
            ApiError::PasswordHash(d) => "密码处理失败: ".to_owned().concat(d.as_str()),
            ApiError::Internal(d) => "服务器内部错误: ".to_owned().concat(d.as_str()),
        }
    }
}

} // verus!
