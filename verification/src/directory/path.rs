//! Where the preset folders are.
use vstd::prelude::*;

use crate::text::push_str;

verus! {

/// A preset folder under the home directory, joined the Windows way.
pub fn home_folder_path(home: &str, directory: &str) -> (path: String)
    ensures
        path@ == home@ + "\\"@ + directory@,
{
    let mut path = String::new();
    push_str(&mut path, home);
    push_str(&mut path, "\\");
    push_str(&mut path, directory);
    path
}

} // verus!
