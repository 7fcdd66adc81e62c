//! Display names of listed files.

use vstd::prelude::*;
use crate::pathops;

verus! {

/// The display name of the entry at `fb`: its last named path component, or
/// `..` when the path ends in the parent component or names no component at
/// all.
pub fn file_name(fb: &String) -> (r: String)
    ensures
        r@ == pathops::file_name_spec(fb@),
{
    pathops::path_file_name(fb.as_str())
}

} // verus!
