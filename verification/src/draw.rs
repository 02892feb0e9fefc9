//! Naming the measured files when the measurements are averaged for the
//! threshold charts.
use vstd::prelude::*;
use crate::text::{split_on, after_last, chars_of, split_vec, after_last_vec, string_of};

verus! {

/// The file name of an encrypted measurement: the second component of
/// its path, when it has one.
pub open spec fn encrypted_name_spec(path: Seq<char>) -> Option<Seq<char>> {
    let parts = split_on(path, '/');
    if parts.len() >= 2 {
        Some(parts[1])
    } else {
        None
    }
}

/// The file name of an encrypted measurement.
pub fn encrypted_name(path: &str) -> (r: Option<String>)
    ensures
        match r {
            Some(s) => encrypted_name_spec(path@) == Some(s@),
            None => encrypted_name_spec(path@) is None,
        },
{
    let v = chars_of(path);
    let parts = split_vec(&v, '/');
    if parts.len() < 2 {
        return None;
    }
    Some(string_of(&parts[1]))
}

/// The file name of an original measurement: the last component of its
/// path.
pub fn original_name(path: &str) -> (r: String)
    ensures
        r@ == after_last(path@, '/'),
{
    let v = chars_of(path);
    string_of(&after_last_vec(&v, '/'))
}

} // verus!
