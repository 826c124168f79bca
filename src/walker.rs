use vstd::prelude::*;
use crate::entry::{is_valid_segment, is_valid_relative, segments_view, segment_is_valid};
use crate::error::ArchiveError;

verus! {

/// What a directory listing says an entry is. Symbolic links, sockets, devices
/// and the like are `Other`: the walker never follows or stores them, so a
/// cyclic link cannot make a traversal run forever.
#[derive(Debug, Clone, Copy, PartialEq, Eq, Structural)]
pub enum EntryKind {
    File,
    Directory,
    Other,
}

/// One entry of a directory listing: its name within the directory, and its kind.
#[derive(Debug, Clone)]
pub struct ListedEntry {
    pub name: String,
    pub kind: EntryKind,
}

/// A directory path, relative to the traversal's root, in which every component is valid.
pub open spec fn is_valid_dir(d: Seq<Seq<char>>) -> bool {
    forall|i: int| 0 <= i < d.len() ==> is_valid_segment(#[trigger] d[i])
}

/// A listing in which every file or directory has a name that can stand as one
/// path component (entries of other kinds are skipped, whatever their name).
pub open spec fn listing_is_valid(l: Seq<ListedEntry>) -> bool {
    forall|i: int| 0 <= i < l.len() && (#[trigger] l[i]).kind != EntryKind::Other
        ==> is_valid_segment(l[i].name@)
}

/// The relative paths of the regular files of listing `l` of directory `dir`, in listing order.
pub open spec fn files_in(dir: Seq<Seq<char>>, l: Seq<ListedEntry>) -> Seq<Seq<Seq<char>>>
    decreases l.len(),
{
    if l.len() == 0 {
        Seq::empty()
    } else if l.last().kind == EntryKind::File {
        files_in(dir, l.drop_last()).push(dir.push(l.last().name@))
    } else {
        files_in(dir, l.drop_last())
    }
}

/// The relative paths of the subdirectories of listing `l` of directory `dir`, in listing order.
pub open spec fn dirs_in(dir: Seq<Seq<char>>, l: Seq<ListedEntry>) -> Seq<Seq<Seq<char>>>
    decreases l.len(),
{
    if l.len() == 0 {
        Seq::empty()
    } else if l.last().kind == EntryKind::Directory {
        dirs_in(dir, l.drop_last()).push(dir.push(l.last().name@))
    } else {
        dirs_in(dir, l.drop_last())
    }
}

/// The paths held by a list of paths.
pub open spec fn paths_view(v: Seq<Vec<String>>) -> Seq<Seq<Seq<char>>> {
    v.map_values(|p: Vec<String>| segments_view(p@))
}

/// A depth-first traversal of a directory tree with an explicit stack of the
/// directories still to be listed, each given relative to the traversal's root.
pub struct TreeWalker {
    pending: Vec<Vec<String>>,
}

impl View for TreeWalker {
    type V = Seq<Seq<Seq<char>>>;

    closed spec fn view(&self) -> Seq<Seq<Seq<char>>> {
        paths_view(self.pending@)
    }
}

/// `dir` with one more component `name`.
fn child_path(dir: &Vec<String>, name: &String) -> (r: Vec<String>)
    ensures
        segments_view(r@) == segments_view(dir@).push(name@),
{
    let mut r: Vec<String> = Vec::new();
    let mut i: usize = 0;
    while i < dir.len()
        invariant
            0 <= i <= dir@.len(),
            segments_view(r@) =~= segments_view(dir@).take(i as int),
        decreases dir@.len() - i,
    {
        let ghost before = r@;
        let seg = dir[i].clone();
        r.push(seg);
        proof {
            assert(segments_view(r@) =~= segments_view(before).push(dir@[i as int]@));
            assert(segments_view(dir@).take(i as int + 1) =~= segments_view(dir@).take(
                i as int,
            ).push(dir@[i as int]@));
        }
        i = i + 1;
    }
    r.push(name.clone());
    proof {
        assert(segments_view(dir@).take(dir@.len() as int) =~= segments_view(dir@));
    }
    assert(segments_view(r@) =~= segments_view(dir@).push(name@));
    r
}

/// Every subdirectory path found in a valid listing of a valid directory is valid.
proof fn lemma_dirs_in_valid(d: Seq<Seq<char>>, l: Seq<ListedEntry>)
    requires
        is_valid_dir(d),
        listing_is_valid(l),
    ensures
        forall|k: int| 0 <= k < dirs_in(d, l).len() ==> is_valid_dir(#[trigger] dirs_in(d, l)[k]),
    decreases l.len(),
{
    if l.len() > 0 {
        assert(listing_is_valid(l.drop_last())) by {
            assert forall|i: int| 0 <= i < l.drop_last().len() && (#[trigger] l.drop_last()[i]).kind
                != EntryKind::Other implies is_valid_segment(l.drop_last()[i].name@) by {
                assert(l.drop_last()[i] == l[i]);
            }
        }
        lemma_dirs_in_valid(d, l.drop_last());
        let prev = dirs_in(d, l.drop_last());
        if l.last().kind == EntryKind::Directory {
            assert(l[l.len() - 1].kind != EntryKind::Other);
            let p = d.push(l.last().name@);
            assert forall|i: int| 0 <= i < p.len() implies is_valid_segment(#[trigger] p[i]) by {
                if i < d.len() {
                    assert(p[i] == d[i]);
                }
            }
            assert(dirs_in(d, l) == prev.push(p));
            assert forall|k: int| 0 <= k < dirs_in(d, l).len() implies is_valid_dir(
                #[trigger] dirs_in(d, l)[k],
            ) by {
                if k < prev.len() {
                    assert(dirs_in(d, l)[k] == prev[k]);
                }
            }
        } else {
            assert(dirs_in(d, l) == prev);
        }
    }
}

impl TreeWalker {
    /// Every directory still to be listed has valid components.
    pub open spec fn wf(&self) -> bool {
        forall|i: int| 0 <= i < self@.len() ==> is_valid_dir(#[trigger] self@[i])
    }

    /// A traversal that has still to list its root.
    pub fn new() -> (r: TreeWalker)
        ensures
            r@ == seq![Seq::<Seq<char>>::empty()],
            r.wf(),
    {
        let mut pending: Vec<Vec<String>> = Vec::new();
        pending.push(Vec::new());
        let r = TreeWalker { pending };
        assert(segments_view(r.pending@[0]@) =~= Seq::<Seq<char>>::empty());
        assert(r@ =~= seq![Seq::<Seq<char>>::empty()]);
        r
    }

    /// Takes the next directory to list, the one most recently found; `None` when
    /// the traversal is complete.
    pub fn next_directory(&mut self) -> (r: Option<Vec<String>>)
        requires
            old(self).wf(),
        ensures
            final(self).wf(),
            old(self)@.len() == 0 ==> r is None && final(self)@ == old(self)@,
            old(self)@.len() > 0 ==> (r matches Some(d) && segments_view(d@) == old(self)@.last()
                && is_valid_dir(segments_view(d@)) && final(self)@ == old(self)@.drop_last()),
    {
        let r = self.pending.pop();
        proof {
            if old(self)@.len() > 0 {
                assert(paths_view(self.pending@) =~= paths_view(old(self).pending@).drop_last());
            }
        }
        r
    }

    /// Takes in the listing of directory `dir`: returns the relative paths of its
    /// regular files and schedules its subdirectories to be listed. Fails with
    /// `InvalidPath`, changing nothing, if a file or directory of the listing has
    /// a name that cannot stand as a path component.
    pub fn expand(&mut self, dir: &Vec<String>, listing: &Vec<ListedEntry>) -> (r: Result<
        Vec<Vec<String>>,
        ArchiveError,
    >)
        requires
            old(self).wf(),
            is_valid_dir(segments_view(dir@)),
        ensures
            final(self).wf(),
            !listing_is_valid(listing@) ==> r == Err::<Vec<Vec<String>>, ArchiveError>(
                ArchiveError::InvalidPath,
            ) && final(self)@ == old(self)@,
            listing_is_valid(listing@) ==> r is Ok,
            r matches Ok(files) ==> paths_view(files@) == files_in(segments_view(dir@), listing@)
                && final(self)@ == old(self)@ + dirs_in(segments_view(dir@), listing@)
                && forall|k: int|
                0 <= k < files@.len() ==> is_valid_relative(#[trigger] paths_view(files@)[k]),
    {
        let ghost d = segments_view(dir@);
        let mut files: Vec<Vec<String>> = Vec::new();
        let mut dirs: Vec<Vec<String>> = Vec::new();
        let mut i: usize = 0;
        while i < listing.len()
            invariant
                0 <= i <= listing@.len(),
                d == segments_view(dir@),
                is_valid_dir(d),
                listing_is_valid(listing@.take(i as int)),
                paths_view(files@) == files_in(d, listing@.take(i as int)),
                paths_view(dirs@) == dirs_in(d, listing@.take(i as int)),
                *self == *old(self),
                self.wf(),
            decreases listing@.len() - i,
        {
            let e = &listing[i];
            proof {
                assert(listing@.take(i as int + 1).drop_last() =~= listing@.take(i as int));
                assert(listing@.take(i as int + 1).last() == listing@[i as int]);
            }
            match e.kind {
                EntryKind::Other => {},
                _ => {
                    if !segment_is_valid(e.name.as_str()) {
                        proof {
                            assert(listing@[i as int].kind != EntryKind::Other);
                        }
                        proof {
                            assert(!listing_is_valid(listing@));
                        }
                        return Err(ArchiveError::InvalidPath);
                    }
                    let p = child_path(dir, &e.name);
                    proof {
                        assert(is_valid_dir(segments_view(p@)));
                    }
                    let ghost pv = segments_view(p@);
                    if e.kind == EntryKind::File {
                        let ghost before = files@;
                        files.push(p);
                        proof {
                            assert(paths_view(files@) =~= paths_view(before).push(pv));
                        }
                    } else {
                        let ghost before = dirs@;
                        dirs.push(p);
                        proof {
                            assert(paths_view(dirs@) =~= paths_view(before).push(pv));
                        }
                    }
                },
            }
            i = i + 1;
        }
        proof {
            assert(listing@.take(listing@.len() as int) =~= listing@);
            assert(paths_view(self.pending@ + dirs@) =~= paths_view(self.pending@) + paths_view(dirs@));
        }
        self.pending.append(&mut dirs);
        proof {
            lemma_dirs_in_valid(d, listing@);
            lemma_files_valid(d, listing@);
            let v = self@;
            assert forall|k: int| 0 <= k < v.len() implies is_valid_dir(#[trigger] v[k]) by {
                if k >= old(self)@.len() {
                    assert(v[k] == dirs_in(d, listing@)[k - old(self)@.len()]);
                }
            }
        }
        Ok(files)
    }
}

} // verus!

verus! {

/// The number of regular files in listing `l`.
pub open spec fn count_files(l: Seq<ListedEntry>) -> nat
    decreases l.len(),
{
    if l.len() == 0 {
        0
    } else {
        count_files(l.drop_last()) + if l.last().kind == EntryKind::File {
            1nat
        } else {
            0nat
        }
    }
}

/// Listing a directory yields exactly one path per regular file of the listing:
/// as many paths as files, the path of each file among them, and nothing else,
/// each path being the directory's path followed by the file's name.
pub proof fn lemma_files_complete(dir: Seq<Seq<char>>, l: Seq<ListedEntry>)
    ensures
        files_in(dir, l).len() == count_files(l),
        forall|i: int|
            0 <= i < l.len() && (#[trigger] l[i]).kind == EntryKind::File ==> files_in(
                dir,
                l,
            ).contains(dir.push(l[i].name@)),
        forall|k: int|
            0 <= k < files_in(dir, l).len() ==> exists|i: int|
                0 <= i < l.len() && l[i].kind == EntryKind::File && #[trigger] files_in(dir, l)[k]
                    == dir.push(l[i].name@),
    decreases l.len(),
{
    if l.len() > 0 {
        let prev = l.drop_last();
        lemma_files_complete(dir, prev);
        let f = files_in(dir, l);
        let fp = files_in(dir, prev);
        assert forall|i: int| 0 <= i < l.len() && (#[trigger] l[i]).kind == EntryKind::File implies f.contains(
            dir.push(l[i].name@),
        ) by {
            if i < l.len() - 1 {
                assert(prev[i] == l[i]);
                let j = choose|j: int| 0 <= j < fp.len() && fp[j] == dir.push(prev[i].name@);
                assert(f[j] == fp[j]);
            } else {
                assert(f[f.len() - 1] == dir.push(l[i].name@));
            }
        }
        assert forall|k: int| 0 <= k < f.len() implies exists|i: int|
            0 <= i < l.len() && l[i].kind == EntryKind::File && #[trigger] f[k] == dir.push(
                l[i].name@,
            ) by {
            if k < fp.len() {
                assert(f[k] == fp[k]);
                let i = choose|i: int|
                    0 <= i < prev.len() && prev[i].kind == EntryKind::File && fp[k] == dir.push(
                        prev[i].name@,
                    );
                assert(prev[i] == l[i]);
            } else {
                assert(l[l.len() - 1] == l.last());
            }
        }
    }
}

/// Every path the walker yields from a valid listing of a valid directory is a
/// valid relative entry path.
pub proof fn lemma_files_valid(dir: Seq<Seq<char>>, l: Seq<ListedEntry>)
    requires
        is_valid_dir(dir),
        listing_is_valid(l),
    ensures
        forall|k: int|
            0 <= k < files_in(dir, l).len() ==> is_valid_relative(#[trigger] files_in(dir, l)[k]),
    decreases l.len(),
{
    if l.len() > 0 {
        let prev = l.drop_last();
        assert(listing_is_valid(prev)) by {
            assert forall|i: int| 0 <= i < prev.len() && (#[trigger] prev[i]).kind
                != EntryKind::Other implies is_valid_segment(prev[i].name@) by {
                assert(prev[i] == l[i]);
            }
        }
        lemma_files_valid(dir, prev);
        let f = files_in(dir, l);
        let fp = files_in(dir, prev);
        assert forall|k: int| 0 <= k < f.len() implies is_valid_relative(#[trigger] f[k]) by {
            if k < fp.len() {
                assert(f[k] == fp[k]);
            } else {
                assert(l[l.len() - 1].kind != EntryKind::Other);
                let p = dir.push(l.last().name@);
                assert(f[k] == p);
                assert forall|i: int| 0 <= i < p.len() implies is_valid_segment(#[trigger] p[i]) by {
                    if i < dir.len() {
                        assert(p[i] == dir[i]);
                    }
                }
            }
        }
    }
}

} // verus!
