//! Directory entries, as the walk sees them.

use crate::path::{
    final_component, is_plain_name, join, joined, lemma_final_component_joined,
    lemma_stripped_joined, stripped,
};
use crate::text::chars_of;
use vstd::prelude::*;

verus! {

/// One immediate entry of the directory that is walked.
#[derive(Debug, PartialEq, Eq)]
pub struct DirectoryEntry {
    /// The entry's name within the directory.
    pub relative_name: String,
    /// The entry's full path.
    pub absolute_path: String,
    /// Whether the entry is itself a directory.
    pub is_directory: bool,
}

impl DirectoryEntry {
    /// An entry is well formed when its name is the final component of its path.
    pub open spec fn wf(&self) -> bool {
        final_component(self.absolute_path@) == Some(self.relative_name@)
    }

    /// Builds the entry called `relative_name` of the directory `root`.
    ///
    /// There is none for a name that no directory entry can have. An entry
    /// that is built here lies under `root`, and its path relative to `root`
    /// is its name.
    pub fn new(root: &str, relative_name: &str, is_directory: bool) -> (entry: Option<
        DirectoryEntry,
    >)
        ensures
            entry is Some <==> is_plain_name(relative_name@),
            entry matches Some(e) ==> {
                &&& e.relative_name@ == relative_name@
                &&& e.absolute_path@ == joined(root@, relative_name@)
                &&& e.is_directory == is_directory
                &&& e.wf()
                &&& stripped(e.absolute_path@, root@) == Some(relative_name@)
            },
    {
        if !is_plain(relative_name) {
            return None;
        }
        proof {
            lemma_final_component_joined(root@, relative_name@);
            assert(relative_name@[0] != '/') by {
                assert(relative_name@.contains(relative_name@[0]));
            }
            lemma_stripped_joined(root@, relative_name@);
        }
        Some(
            DirectoryEntry {
                relative_name: relative_name.to_owned(),
                absolute_path: join(root, relative_name),
                is_directory,
            },
        )
    }

    /// The path of the entry's link in `target_directory`: the entry's name there.
    pub fn link_path(&self, target_directory: &str) -> (link: String)
        ensures
            link@ == joined(target_directory@, self.relative_name@),
    {
        join(target_directory, self.relative_name.as_str())
    }
}

/// Tells whether `name` can be the name of a directory entry.
pub fn is_plain(name: &str) -> (plain: bool)
    ensures
        plain == is_plain_name(name@),
{
    let chars = chars_of(name);
    let n: usize = chars.len();
    if n == 0 {
        return false;
    }
    if chars[0] == '.' && (n == 1 || (n == 2 && chars[1] == '.')) {
        proof {
            if n == 1 {
                assert(name@ == seq!['.']);
            } else {
                assert(name@ == seq!['.', '.']);
            }
        }
        return false;
    }
    proof {
        if name@ == seq!['.'] || name@ == seq!['.', '.'] {
            assert(name@[0] == '.');
        }
    }
    let mut i: usize = 0;
    while i < n
        invariant
            i <= n,
            n == chars.len(),
            chars@ == name@,
            forall|j: int| 0 <= j < i ==> chars[j] != '/',
        decreases n - i,
    {
        if chars[i] == '/' {
            assert(chars@.contains('/'));
            return false;
        }
        i = i + 1;
    }
    true
}

} // verus!
