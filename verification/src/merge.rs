//! What the command line leaves open, the configuration file fills in.

use vstd::prelude::*;

verus! {

/// Merge CLI arguments with configuration file values.
///
/// `other` (typically from config) is merged into `self` (typically from CLI),
/// so CLI flags take precedence: `self` only accepts a value from `other` when
/// the corresponding field in `self` is still `None`/empty (i.e. not provided on
/// the command line).
pub trait Merge: Sized {
    /// The arguments after the values of `other` have been filled in.
    spec fn merged(self, other: Self) -> Self;

    /// Fills in the values of `other`.
    fn merge(&mut self, other: Self)
        ensures
            *final(self) == old(self).merged(other),
    ;
}

/// The first value that is there.
pub open spec fn first<T>(dst: Option<T>, src: Option<T>) -> Option<T> {
    match dst {
        Some(v) => Some(v),
        None => src,
    }
}

/// The first list with something in it.
pub open spec fn first_list<T>(dst: Vec<T>, src: Vec<T>) -> Vec<T> {
    if dst@.len() > 0 {
        dst
    } else {
        src
    }
}

/// The first list that is there with something in it. A list with nothing in it
/// stays where there is no other.
pub open spec fn first_optional_list<T>(dst: Option<Vec<T>>, src: Option<Vec<T>>) -> Option<Vec<T>> {
    match dst {
        Some(v) => if v@.len() > 0 || src is None {
            Some(v)
        } else {
            src
        },
        None => src,
    }
}

/// Takes a value where there is none yet.
pub fn merge_opt<T>(dst: &mut Option<T>, src: Option<T>)
    ensures
        *final(dst) == first(*old(dst), src),
{
    if dst.is_none() {
        *dst = src;
    }
}

/// Takes a list where there is nothing in the one that is there.
pub fn merge_list<T>(dst: &mut Vec<T>, src: Vec<T>)
    ensures
        *final(dst) == first_list(*old(dst), src),
{
    if dst.len() == 0 {
        *dst = src;
    }
}

/// Takes an optional list where there is none, or nothing in the one that is
/// there.
pub fn merge_option_vec<T>(dst: &mut Option<Vec<T>>, src: Option<Vec<T>>)
    ensures
        *final(dst) == first_optional_list(*old(dst), src),
{
    let empty: bool = match dst {
        Some(v) => v.len() == 0,
        None => true,
    };
    if empty && (dst.is_none() || src.is_some()) {
        *dst = src;
    }
}

/// What is there stays, and only what is not there is filled in: a list with nothing
/// in it counts as not there, but an optional one stays where there is no other.
pub proof fn law_what_is_there_stays<T>(v: T, a: Option<T>, b: Option<T>, c: Option<T>, list: Vec<T>, other: Vec<T>)
    ensures
        first(Some(v), a) == Some(v),
        first(None, a) == a,
        first(first(a, b), c) == first(a, first(b, c)),
        list@.len() > 0 ==> first_list(list, other) == list,
        list@.len() == 0 ==> first_list(list, other) == other,
        list@.len() > 0 ==> first_optional_list(Some(list), Some(other)) == Some(list),
        list@.len() == 0 ==> first_optional_list(Some(list), Some(other)) == Some(other),
        first_optional_list(Some(list), None) == Some(list),
        first_optional_list(None, Some(other)) == Some(other),
        first_optional_list::<T>(None, None) is None,
{
}

} // verus!
