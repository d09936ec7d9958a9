//! What installing the scheduler's Python resources copies, and how a
//! development build is told from an installed one.
use vstd::prelude::*;
use crate::text::{chars_eq_str, chars_of, ends_with, ends_with_chars};

verus! {

/// The directory entries that installing leaves out: Python caches
/// (`__pycache__` directories) and compiled bytecode (files with the `pyc`
/// extension).
pub open spec fn skipped_entry(name: Seq<char>, is_dir: bool, is_file: bool) -> bool {
    (is_dir && name == "__pycache__"@) || (is_file && name.len() > 4 && ends_with(name, ".pyc"@))
}

/// Whether installing leaves out a directory entry.
pub fn skips_entry(file_name: &str, is_dir: bool, is_file: bool) -> (r: bool)
    ensures
        r == skipped_entry(file_name@, is_dir, is_file),
{
    let n = chars_of(file_name);
    if is_dir && chars_eq_str(n.as_slice(), "__pycache__") {
        return true;
    }
    let ext = chars_of(".pyc");
    is_file && n.len() > 4 && ends_with_chars(n.as_slice(), ext.as_slice())
}

/// A running executable belongs to a development build when a component of
/// its path is `target`.
pub fn is_development_build(components: &Vec<String>) -> (r: bool)
    ensures
        r == exists|i: int| 0 <= i < components@.len() && #[trigger] components@[i]@ == "target"@,
{
    let mut i: usize = 0;
    while i < components.len()
        invariant
            i <= components@.len(),
            forall|j: int| 0 <= j < i ==> #[trigger] components@[j]@ != "target"@,
        decreases components@.len() - i,
    {
        let c = chars_of(components[i].as_str());
        if chars_eq_str(c.as_slice(), "target") {
            return true;
        }
        i += 1;
    }
    false
}

} // verus!
