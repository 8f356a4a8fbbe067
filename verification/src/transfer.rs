//! Move/copy destinations and the work-stack plan of a recursive tree copy.

use vstd::prelude::*;

use crate::entry::{Entry, EntryV};
use crate::fspath::FsPath;
use crate::listing::views_of;
use crate::paneset::PaneSet;

verus! {

/// Why a transfer was refused before any file-system work began.
pub enum TransferError {
    /// The source path has no final component (a file-system root).
    InvalidPath,
}

/// The views of a sequence of paths.
pub open spec fn path_views(s: Seq<FsPath>) -> Seq<Seq<Seq<char>>> {
    s.map_values(|p: FsPath| p@)
}

/// The views of a sequence of copy jobs (source path, destination path).
pub open spec fn job_views(js: Seq<(FsPath, FsPath)>) -> Seq<(Seq<Seq<char>>, Seq<Seq<char>>)> {
    js.map_values(|j: (FsPath, FsPath)| (j.0@, j.1@))
}

/// The paths of the sub-directories among a directory's children, one per
/// child directory, in child order.
pub open spec fn dir_children(base: Seq<Seq<char>>, cs: Seq<EntryV>) -> Seq<Seq<Seq<char>>>
    decreases cs.len(),
{
    if cs.len() == 0 {
        Seq::empty()
    } else {
        let rest = dir_children(base, cs.drop_last());
        if cs.last().is_dir {
            rest.push(base.push(cs.last().name))
        } else {
            rest
        }
    }
}

/// One copy job per file among a directory's children: the file under the
/// visited directory, and its destination under the matching directory.
pub open spec fn file_jobs(
    src: Seq<Seq<char>>,
    dst: Seq<Seq<char>>,
    cs: Seq<EntryV>,
) -> Seq<(Seq<Seq<char>>, Seq<Seq<char>>)>
    decreases cs.len(),
{
    if cs.len() == 0 {
        Seq::empty()
    } else {
        let rest = file_jobs(src, dst, cs.drop_last());
        if !cs.last().is_dir {
            rest.push((src.push(cs.last().name), dst.push(cs.last().name)))
        } else {
            rest
        }
    }
}

/// How many of the children are directories.
pub open spec fn dir_count(cs: Seq<EntryV>) -> int
    decreases cs.len(),
{
    if cs.len() == 0 {
        0
    } else {
        dir_count(cs.drop_last()) + if cs.last().is_dir {
            1int
        } else {
            0int
        }
    }
}

/// Visiting one directory plans exactly one further visit per child
/// directory and exactly one copy job per child file: over a whole tree,
/// every directory is created once and every file copied once.
pub proof fn lemma_children_counted_once(
    base: Seq<Seq<char>>,
    dst: Seq<Seq<char>>,
    cs: Seq<EntryV>,
)
    ensures
        dir_children(base, cs).len() == dir_count(cs),
        file_jobs(base, dst, cs).len() == cs.len() - dir_count(cs),
        0 <= dir_count(cs) <= cs.len(),
    decreases cs.len(),
{
    if cs.len() > 0 {
        lemma_children_counted_once(base, dst, cs.drop_last());
    }
}

/// The destination of a move or copy: the active pane's directory extended
/// by the source's final component.  A source without a final component (a
/// file-system root) is refused, and nothing is to be touched on disk.
pub fn transfer_destination(set: &PaneSet, source: &FsPath) -> (r: Result<FsPath, TransferError>)
    requires
        set.wf(),
    ensures
        match r {
            Ok(dest) => source@.len() > 0 && dest@ == set.active_pane().path@.push(
                source@.last()),
            Err(e) => source@.len() == 0 && e == TransferError::InvalidPath,
        },
{
    if !source.has_file_name() {
        return Err(TransferError::InvalidPath);
    }
    let name = source.file_name();
    Ok(active_path_child(set, name))
}

/// The active pane's directory extended by one name.
fn active_path_child(set: &PaneSet, name: &String) -> (p: FsPath)
    requires
        set.wf(),
    ensures
        p@ == set.active_pane().path@.push(name@),
{
    set.panes[set.active].path.child(name)
}

/// The directories of a tree copy still to visit — the most recently found
/// first — with the depth of the copy's source root and the destination
/// root.  Mirrors an explicit work stack rather than native recursion, so
/// the traversal's depth stays bounded.
pub struct CopyPlanner {
    pub stack: Vec<FsPath>,
    pub src_depth: usize,
    pub dest_root: FsPath,
}

impl CopyPlanner {
    /// Every waiting directory lies at or below the source root's depth.
    pub open spec fn wf(&self) -> bool {
        forall|i: int|
            0 <= i < self.stack@.len() ==> (#[trigger] self.stack@[i])@.len() >= self.src_depth
    }

    /// Begin a tree copy of `source` into `dest`: the source root itself is
    /// the one directory waiting.
    pub fn new(source: FsPath, dest: FsPath) -> (p: CopyPlanner)
        ensures
            p.wf(),
            path_views(p.stack@) == seq![source@],
            p.src_depth == source@.len(),
            p.dest_root == dest,
    {
        let src_depth = source.depth();
        let mut stack: Vec<FsPath> = Vec::new();
        stack.push(source);
        let p = CopyPlanner { stack, src_depth, dest_root: dest };
        proof {
            assert(path_views(p.stack@) =~= seq![source@]);
        }
        p
    }

    /// The next directory to visit, paired with its destination: the
    /// destination root extended by the directory's path below the source
    /// root.  `None` once no directory is waiting: the traversal is done.
    pub fn next_dir(&mut self) -> (r: Option<(FsPath, FsPath)>)
        requires
            old(self).wf(),
        ensures
            final(self).wf(),
            final(self).src_depth == old(self).src_depth,
            final(self).dest_root == old(self).dest_root,
            match r {
                None => old(self).stack@.len() == 0 && final(self).stack@ == old(self).stack@,
                Some(pair) => {
                    &&& old(self).stack@.len() > 0
                    &&& pair.0 == old(self).stack@.last()
                    &&& final(self).stack@ == old(self).stack@.drop_last()
                    &&& pair.1@ == old(self).dest_root@ + pair.0@.skip(
                        old(self).src_depth as int)
                },
            },
    {
        match self.stack.pop() {
            None => None,
            Some(working) => {
                proof {
                    assert(working@.len() >= self.src_depth);
                }
                let dest = self.dest_root.append_from(&working, self.src_depth);
                Some((working, dest))
            },
        }
    }

    /// Note what a visited directory holds.  Each sub-directory goes onto
    /// the stack, to be visited in turn; each file becomes one copy job,
    /// from its place under `working` to the matching place under `dest`.
    pub fn note_children(
        &mut self,
        working: &FsPath,
        dest: &FsPath,
        children: &Vec<Entry>,
    ) -> (jobs: Vec<(FsPath, FsPath)>)
        requires
            old(self).wf(),
            working@.len() >= old(self).src_depth,
        ensures
            final(self).wf(),
            final(self).src_depth == old(self).src_depth,
            final(self).dest_root == old(self).dest_root,
            path_views(final(self).stack@) == path_views(old(self).stack@) + dir_children(
                working@, views_of(children@)),
            job_views(jobs@) == file_jobs(working@, dest@, views_of(children@)),
    {
        let ghost pre = *self;
        let ghost vc = views_of(children@);
        let mut jobs: Vec<(FsPath, FsPath)> = Vec::new();
        let mut i: usize = 0;
        proof {
            assert(vc.take(0) =~= Seq::<EntryV>::empty());
            assert(path_views(self.stack@) =~= path_views(pre.stack@) + dir_children(
                working@, vc.take(0)));
            assert(job_views(jobs@) =~= file_jobs(working@, dest@, vc.take(0)));
        }
        while i < children.len()
            invariant
                pre.wf(),
                working@.len() >= pre.src_depth,
                i <= children@.len(),
                vc == views_of(children@),
                vc.len() == children@.len(),
                self.wf(),
                self.src_depth == pre.src_depth,
                self.dest_root == pre.dest_root,
                path_views(self.stack@) == path_views(pre.stack@) + dir_children(working@,
                    vc.take(i as int)),
                job_views(jobs@) == file_jobs(working@, dest@, vc.take(i as int)),
            decreases children@.len() - i,
        {
            let c_is_dir = children[i].is_dir;
            let ghost stack0 = self.stack@;
            let ghost jobs0 = jobs@;
            if c_is_dir {
                let sub = working.child(&children[i].name);
                self.stack.push(sub);
                proof {
                    assert(path_views(self.stack@) =~= path_views(stack0).push(sub@));
                }
            } else {
                let from = working.child(&children[i].name);
                let to = dest.child(&children[i].name);
                jobs.push((from, to));
                proof {
                    assert(job_views(jobs@) =~= job_views(jobs0).push((from@, to@)));
                }
            }
            proof {
                assert(vc.take(i + 1).drop_last() =~= vc.take(i as int));
                assert(vc.take(i + 1).last() == vc[i as int]);
                assert(vc[i as int] == children@[i as int]@);
                assert(path_views(self.stack@) =~= path_views(pre.stack@) + dir_children(
                    working@, vc.take(i + 1)));
                assert(job_views(jobs@) =~= file_jobs(working@, dest@, vc.take(i + 1)));
            }
            i = i + 1;
        }
        proof {
            assert(vc.take(children@.len() as int) =~= vc);
        }
        jobs
    }
}

} // verus!
