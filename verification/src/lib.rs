//! Session-based authentication and authorization core of a small forum
//! service: credential hashing, session lifecycle, category validation,
//! anonymity-aware view construction, and the authorization rules, all
//! modelled over an in-memory table state.

pub mod categories;
pub mod domain;
pub mod errors;
pub mod forum;
pub mod hashing;
pub mod sys;
pub mod text;
pub mod views;

use vstd::prelude::*;

verus! {

/// Maps a flag to the integer a relational store encodes it as.
pub fn bool_to_int(flag: bool) -> (r: i64)
    ensures
        r == if flag { 1int } else { 0int },
{
    if flag {
        1
    } else {
        0
    }
}

} // verus!
