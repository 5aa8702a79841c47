//! The request as it comes from the command line.

use crate::link::LinkRequest;
use crate::path::{
    absolute, absolute_of, file_name, final_component, join, joined,
    lemma_final_component_absolute,
};
use vstd::prelude::*;

verus! {

/// What the user asked for.
#[derive(Debug, PartialEq, Eq)]
pub struct Cli {
    /// Path to the file to link; the working directory stands for all that it holds.
    pub file_name: String,
    /// The directory that the links go to.
    pub target_path: String,
    /// Remove the link instead of making it.
    pub delete: bool,
    /// Replace a link that already stands at the target.
    pub force: bool,
}

impl Cli {
    /// The name under which the file is linked: the final component of its path.
    pub fn file_name(&self) -> (name: String)
        requires
            final_component(self.file_name@) is Some,
        ensures
            name@ == final_component(self.file_name@)->0,
    {
        match file_name(self.file_name.as_str()) {
            Some(name) => name,
            None => vstd::pervasive::unreached(),
        }
    }

    /// Tells whether the path names a file or directory, so that
    /// [`Cli::file_name`] and [`Cli::target`] can be asked.
    pub fn has_file_name(&self) -> (named: bool)
        ensures
            named == final_component(self.file_name@) is Some,
    {
        file_name(self.file_name.as_str()).is_some()
    }

    /// The absolute path of the file, where `cwd` is the working directory.
    pub fn file_name_abs(&self, cwd: &str) -> (full: String)
        ensures
            full@ == absolute_of(cwd@, self.file_name@),
    {
        absolute(cwd, self.file_name.as_str())
    }

    /// The path of the link: the file's name, in the target directory.
    pub fn target(&self) -> (link: String)
        requires
            final_component(self.file_name@) is Some,
        ensures
            link@ == joined(self.target_path@, final_component(self.file_name@)->0),
    {
        let name = self.file_name();
        join(self.target_path.as_str(), name.as_str())
    }

    /// Whether the path names the working directory `cwd` itself.
    pub open spec fn names_directory(&self, cwd: Seq<char>) -> bool {
        absolute_of(cwd, self.file_name@) == absolute_of(cwd, Seq::empty())
    }

    /// Tells whether the request is for the working directory `cwd` as a
    /// whole, rather than for one file.
    pub fn is_whole_dir(&self, cwd: &str) -> (whole: bool)
        ensures
            whole == self.names_directory(cwd@),
    {
        let here = absolute(cwd, "");
        assert(""@ == Seq::<char>::empty()) by {
            reveal_strlit("");
        }
        self.file_name_abs(cwd) == here
    }

    /// Builds the request for the one file that the path names: a link to
    /// its absolute path, under its own name, in the target directory.
    ///
    /// There is none for a path that names no file.
    pub fn request(&self, cwd: &str) -> (request: Option<LinkRequest>)
        ensures
            request is Some <==> final_component(self.file_name@) is Some,
            request matches Some(q) ==> {
                &&& q.source@ == absolute_of(cwd@, self.file_name@)
                &&& q.target@ == joined(self.target_path@, final_component(self.file_name@)->0)
                &&& q.force == self.force
                &&& q.delete == self.delete
                &&& q.wf()
            },
    {
        let source = self.file_name_abs(cwd);
        proof {
            if final_component(self.file_name@) is Some {
                lemma_final_component_absolute(cwd@, self.file_name@);
            }
        }
        if self.has_file_name() {
            LinkRequest::new(source.as_str(), self.target_path.as_str(), self.force, self.delete)
        } else {
            None
        }
    }
}

} // verus!
