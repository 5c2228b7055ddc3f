//! Which walked entries may contribute to the document.
//!
//! Besides what the ignore-pattern files exclude during the walk, two rules
//! always hold: nothing inside a version-control metadata directory is taken,
//! and the ignore-pattern files themselves are never taken.
use vstd::prelude::*;

verus! {

/// The name of the version-control metadata directory, `.git`.
pub open spec fn vcs_dir_name() -> Seq<u8> {
    seq![46u8, 103, 105, 116]
}

/// The conventional name of an ignore-pattern file, `.gitignore`.
pub open spec fn ignore_file_name() -> Seq<u8> {
    seq![46u8, 103, 105, 116, 105, 103, 110, 111, 114, 101]
}

/// Why an entry is left out of the document, or that it is not.
#[derive(Clone, Copy, Debug, PartialEq, Eq, Structural)]
pub enum Verdict {
    /// A regular file that may contribute its contents.
    Include,
    /// A directory or other non-file entry: it only drives the walk.
    NotAFile,
    /// Some component of the path is the version-control metadata directory.
    InVcsDir,
    /// The file is an ignore-pattern file.
    IgnoreFile,
}

/// Some component of the path names the version-control metadata directory.
pub open spec fn in_vcs_dir(components: Seq<Seq<u8>>) -> bool {
    exists|i: int| 0 <= i < components.len() && #[trigger] components[i] == vcs_dir_name()
}

/// The last component of the path is the ignore-pattern file's name.
pub open spec fn names_ignore_file(components: Seq<Seq<u8>>) -> bool {
    components.len() > 0 && components.last() == ignore_file_name()
}

/// The verdict on an entry, given whether it is a regular file and the
/// components of its path.
pub open spec fn verdict_of(is_file: bool, components: Seq<Seq<u8>>) -> Verdict {
    if !is_file {
        Verdict::NotAFile
    } else if in_vcs_dir(components) {
        Verdict::InVcsDir
    } else if names_ignore_file(components) {
        Verdict::IgnoreFile
    } else {
        Verdict::Include
    }
}

/// The byte views of a list of path components.
pub open spec fn component_views(components: Seq<Vec<u8>>) -> Seq<Seq<u8>> {
    components.map_values(|c: Vec<u8>| c@)
}

/// Whether a path component is the version-control metadata directory.
pub fn is_vcs_dir_name(c: &[u8]) -> (r: bool)
    ensures
        r == (c@ == vcs_dir_name()),
{
    let r = c.len() == 4 && c[0] == 46 && c[1] == 103 && c[2] == 105 && c[3] == 116;
    if r {
        assert(c@ =~= vcs_dir_name());
    } else {
        assert(c@ != vcs_dir_name()) by {
            if c@ == vcs_dir_name() {
                assert(c@[0] == 46 && c@[1] == 103 && c@[2] == 105 && c@[3] == 116);
            }
        }
    }
    r
}

/// Whether a path component is the ignore-pattern file's name.
pub fn is_ignore_file_name(c: &[u8]) -> (r: bool)
    ensures
        r == (c@ == ignore_file_name()),
{
    let r = c.len() == 10 && c[0] == 46 && c[1] == 103 && c[2] == 105 && c[3] == 116 && c[4]
        == 105 && c[5] == 103 && c[6] == 110 && c[7] == 111 && c[8] == 114 && c[9] == 101;
    if r {
        assert(c@ =~= ignore_file_name());
    } else {
        assert(c@ != ignore_file_name()) by {
            if c@ == ignore_file_name() {
                assert(c@[0] == 46 && c@[1] == 103 && c@[2] == 105 && c@[3] == 116 && c@[4]
                    == 105 && c@[5] == 103 && c@[6] == 110 && c@[7] == 111 && c@[8] == 114
                    && c@[9] == 101);
            }
        }
    }
    r
}

/// Decides whether an entry of the walk may contribute to the document.
/// `components` are the components of the entry's path relative to the root.
pub fn classify(is_file: bool, components: &Vec<Vec<u8>>) -> (r: Verdict)
    ensures
        r == verdict_of(is_file, component_views(components@)),
{
    let ghost cs = component_views(components@);
    if !is_file {
        return Verdict::NotAFile;
    }
    let mut i: usize = 0;
    while i < components.len()
        invariant
            0 <= i <= components@.len(),
            is_file,
            cs == component_views(components@),
            forall|j: int| 0 <= j < i ==> cs[j] != vcs_dir_name(),
        decreases components@.len() - i,
    {
        if is_vcs_dir_name(components[i].as_slice()) {
            assert(cs[i as int] == components@[i as int]@);
            assert(cs[i as int] == vcs_dir_name());
            assert(cs.len() == components@.len());
            assert(in_vcs_dir(cs));
            return Verdict::InVcsDir;
        }
        assert(cs[i as int] == components@[i as int]@);
        i = i + 1;
    }
    assert(!in_vcs_dir(cs));
    let n = components.len();
    assert(n > 0 ==> cs.last() == components@[n - 1]@);
    if n > 0 && is_ignore_file_name(components[n - 1].as_slice()) {
        Verdict::IgnoreFile
    } else {
        Verdict::Include
    }
}

} // verus!
