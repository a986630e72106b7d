//! A directory entry, together with the repository identity assigned to it
//! by classification.

use vstd::prelude::*;
use vstd::string::StrSliceExecFns;

use crate::paint::{paint_red, wrapped};
use crate::repo::Repo;

verus! {

/// The name an entry shows when its metadata could not be read at all.
pub open spec fn unknown_path_text() -> Seq<char> {
    "Unknown path"@
}

/// One directory entry.  `repo` is `None` until classification has looked
/// at the entry, and stays `None` when the entry is not a git working copy.
#[derive(Debug, Clone)]
pub struct File {
    pub path: String,
    pub repo: Option<Repo>,
    pub is_hidden: bool,
    pub name: String,
    pub is_dir: bool,
}

impl File {
    /// Whatever identity the entry carries is well formed.
    pub open spec fn wf(self) -> bool {
        match self.repo {
            Some(r) => r.wf(),
            None => true,
        }
    }

    /// An entry fresh from directory enumeration: not yet classified, and
    /// hidden exactly when its name starts with a dot.
    pub fn new(path: String, name: String, is_dir: bool) -> (r: Self)
        ensures
            r.wf(),
            r.path == path,
            r.name == name,
            r.is_dir == is_dir,
            r.repo is None,
            r.is_hidden == (name@.len() > 0 && name@[0] == '.'),
    {
        let is_hidden = name.as_str().unicode_len() > 0 && name.as_str().get_char(0) == '.';
        Self { path, repo: None, is_hidden, name, is_dir }
    }

    /// The placeholder entry used when a directory entry could not be read.
    pub fn new_error_file() -> (r: Self)
        ensures
            r.wf(),
            r.path@ == Seq::<char>::empty(),
            r.repo is None,
            !r.is_hidden,
            !r.is_dir,
            wrapped(unknown_path_text(), r.name@),
    {
        proof {
            reveal_strlit("Unknown path");
            assert(crate::paint::esc_free(unknown_path_text()));
        }
        Self {
            path: String::new(),
            name: paint_red("Unknown path"),
            is_hidden: false,
            is_dir: false,
            repo: None,
        }
    }
}

/// Whether a listing that was asked to show `all` entries, or an entry that
/// is not hidden, survives the hidden-entry filter.
pub fn keep_entry(file: &File, all: bool) -> (r: bool)
    ensures
        r == (all || !file.is_hidden),
{
    all || !file.is_hidden
}

} // verus!
