//! The category validator: a fixed closed set of five post categories, a
//! default for the write path, and a virtual "latest" value that the query
//! path reads as "no filter".

use vstd::prelude::*;
use vstd::string::StrSliceExecFns;
use crate::errors::ApiError;
use crate::text::{trim_spec, trim_str, str_eq};

verus! {

/// Membership in the fixed category set.
pub open spec fn is_category(s: Seq<char>) -> bool {
    ||| s == "扩列"@
    ||| s == "吐槽"@
    ||| s == "表白"@
    ||| s == "提问"@
    ||| s == "其它"@
}

/// The category given to a post whose author chose none.
pub open spec fn default_category() -> Seq<char> {
    "其它"@
}

/// The view of an optional owned string.
pub open spec fn opt_view(o: Option<String>) -> Option<Seq<char>> {
    match o {
        Some(s) => Some(s@),
        None => None,
    }
}

/// What the write path resolves a raw category input to: absent or blank
/// input falls back to the default; anything else must name a fixed category
/// exactly after trimming, else the input is invalid (`None`).
pub open spec fn write_category(input: Option<Seq<char>>) -> Option<Seq<char>> {
    let raw = match input {
        Some(s) => s,
        None => default_category(),
    };
    let trimmed = trim_spec(raw);
    let resolved = if trimmed.len() == 0 {
        default_category()
    } else {
        trimmed
    };
    if is_category(resolved) {
        Some(resolved)
    } else {
        None
    }
}

/// What the query path resolves a raw category filter to: `Some(None)` means
/// "no filter", `Some(Some(c))` an exact category filter, and `None` an
/// invalid input.
pub open spec fn query_category(input: Option<Seq<char>>) -> Option<Option<Seq<char>>> {
    match input {
        None => Some(None),
        Some(raw) => {
            let trimmed = trim_spec(raw);
            if trimmed.len() == 0 || trimmed == "最新"@ {
                Some(None)
            } else if is_category(trimmed) {
                Some(Some(trimmed))
            } else {
                None
            }
        },
    }
}

/// Decides membership in the fixed category set.
pub fn is_valid_category(s: &str) -> (r: bool)
    ensures
        r == is_category(s@),
{
    str_eq(s, "扩列") || str_eq(s, "吐槽") || str_eq(s, "表白") || str_eq(s, "提问") || str_eq(
        s,
        "其它",
    )
}

/// Resolves the category a new post is written under. Blank or absent input
/// falls back to the default category; any other input must name one of the
/// five fixed categories after trimming.
pub fn normalize_post_category(category: Option<String>) -> (r: Result<String, ApiError>)
    ensures
        match r {
            Ok(c) => write_category(opt_view(category)) == Some(c@),
            Err(e) => write_category(opt_view(category)) is None && e is Validation,
        },
{
    let value: String = match category {
        Some(v) => v,
        None => "其它".to_owned(),
    };
    let trimmed = trim_str(value.as_str());
    let normalized: String = if trimmed.as_str().unicode_len() == 0 {
        "其它".to_owned()
    } else {
        trimmed
    };
    if is_valid_category(normalized.as_str()) {
        Ok(normalized)
    } else {
        Err(ApiError::Validation("请选择有效的分区".to_owned()))
    }
}

/// Resolves the category filter of a listing query. Absent, blank, or the
/// virtual "latest" value means no filter; any other input must name one of
/// the five fixed categories after trimming.
pub fn normalize_query_category(category: Option<String>) -> (r: Result<
    Option<String>,
    ApiError,
>)
    ensures
        match r {
            Ok(f) => query_category(opt_view(category)) == Some(opt_view(f)),
            Err(e) => query_category(opt_view(category)) is None && e is Validation,
        },
{
    match category {
        None => Ok(None),
        Some(raw) => {
            let trimmed = trim_str(raw.as_str());
            if trimmed.as_str().unicode_len() == 0 || str_eq(trimmed.as_str(), "最新") {
                Ok(None)
            } else if is_valid_category(trimmed.as_str()) {
                Ok(Some(trimmed))
            } else {
                Err(ApiError::Validation("未知的分区筛选".to_owned()))
            }
        },
    }
}

} // verus!
