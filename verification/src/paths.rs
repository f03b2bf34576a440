//! Slash-separated destination paths as the caller-facing layer
//! exchanges them, and the directory-tree nodes the browsing API
//! returns.

use vstd::prelude::*;

use crate::fs_tree::PathToString;

verus! {

/// How joining appends a name under a base path: one slash between
/// them, none doubled, and a bare name under an empty base.
pub open spec fn spec_join(base: Seq<char>, name: Seq<char>) -> Seq<char> {
    if base.len() == 0 {
        name
    } else if base.last() == '/' {
        base + name
    } else {
        base + seq!['/'] + name
    }
}

/// A path written with forward slashes, whatever the platform's
/// separator.
#[derive(Clone, Debug)]
pub struct UnixPath(String);

impl View for UnixPath {
    type V = Seq<char>;

    closed spec fn view(&self) -> Seq<char> {
        self.0@
    }
}

impl UnixPath {
    /// Wraps an already slash-separated path.
    pub fn new(path: String) -> (r: UnixPath)
        ensures
            r@ == path@,
    {
        UnixPath(path)
    }

    /// The path's text.
    pub fn to_string_lossy(&self) -> (r: String)
        ensures
            r@ == self@,
    {
        self.0.clone()
    }

    /// The path extended by one more name.
    pub fn join(&self, name: &str) -> (r: UnixPath)
        ensures
            r@ == spec_join(self@, name@),
    {
        let len = self.0.as_str().unicode_len();
        if len == 0 {
            let mut s = String::new();
            s.append(name);
            return UnixPath(s);
        }
        let last = self.0.as_str().get_char(len - 1);
        if last == '/' {
            UnixPath(self.0.clone().concat(name))
        } else {
            let joined = self.0.clone().concat("/").concat(name);
            proof {
                reveal_strlit("/");
                assert("/"@ =~= seq!['/']);
                assert(joined@ =~= spec_join(self@, name@));
            }
            UnixPath(joined)
        }
    }
}

/// Index of the last slash in a path, `-1` where there is none.
pub open spec fn spec_last_slash(p: Seq<char>) -> int
    decreases p.len(),
{
    if p.len() == 0 {
        -1
    } else if p.last() == '/' {
        p.len() - 1
    } else {
        spec_last_slash(p.drop_last())
    }
}

/// The name after a path's last slash; `None` where nothing follows
/// it, or the path is empty.
pub open spec fn spec_file_name(p: Seq<char>) -> Option<Seq<char>> {
    if spec_last_slash(p) + 1 < p.len() {
        Some(p.subrange(spec_last_slash(p) + 1, p.len() as int))
    } else {
        None
    }
}

impl UnixPath {
    /// The path's final name component, if it has one.
    pub fn file_name(&self) -> (r: Option<String>)
        ensures
            r matches Some(name) ==> spec_file_name(self@) == Some(name@),
            r is None ==> spec_file_name(self@) is None,
    {
        let len = self.0.as_str().unicode_len();
        let mut start: usize = 0;
        let mut i: usize = 0;
        proof {
            assert(self@.take(0) =~= Seq::<char>::empty());
        }
        while i < len
            invariant
                len == self@.len(),
                i <= len,
                start <= i,
                spec_last_slash(self@.take(i as int)) == start - 1,
            decreases len - i,
        {
            let c = self.0.as_str().get_char(i);
            proof {
                assert(self@.take(i as int + 1).drop_last() =~= self@.take(i as int));
                assert(self@.take(i as int + 1).last() == self@[i as int]);
            }
            if c == '/' {
                start = i + 1;
            }
            i = i + 1;
        }
        proof {
            assert(self@.take(len as int) =~= self@);
        }
        if start < len {
            let name = self.0.as_str().substring_char(start, len).to_owned();
            Some(name)
        } else {
            None
        }
    }
}

impl PathToString for UnixPath {
    fn to_lossy_string(&self) -> String {
        self.to_string_lossy()
    }
}

/// One node of the browsed directory tree, as the caller-facing layer
/// shows it: a file has no children list, a directory has one.
#[derive(Debug)]
pub struct FileNode {
    pub name: String,
    pub path: UnixPath,
    pub last_modified: String,
    pub children: Option<Vec<FileNode>>,
}

} // verus!
