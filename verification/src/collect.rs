//! Classification of input paths into archive members.
//!
//! One `add` call receives a heterogeneous list of paths: plain files,
//! directories, symbolic links and names that do not exist.  The collector
//! turns that list into the flat, ordered, deduplicated pending member
//! set: the files and directories themselves first, in first-seen order,
//! then the contents of each directory in turn, then the dereferenced
//! targets of the symbolic links; a path collected twice — given twice, or
//! reached both directly and through a directory or a link — stays where it
//! was first seen.  The order is binding, because it decides which entries
//! win in the merge step.
//!
//! Looking a path up on disk is the caller's part; the collector is driven
//! as a worklist machine.  It hands out one task at a time — classify a
//! batch of paths, or list a directory's children — and the caller reports
//! each task's outcome back.  Every transition of the machine is exact, so
//! the pending set is determined by what the filesystem answered.

use vstd::prelude::*;

use crate::seq_facts::{lemma_deep_view_after_push, lemma_filter_push, lemma_map_values_push};

verus! {

/// What a filesystem lookup found a path to be.
#[derive(Clone, Debug, PartialEq, Eq)]
pub enum PathKind {
    /// A regular file.
    File,
    /// A directory; it becomes a member itself and its children are
    /// collected recursively.
    Directory,
    /// A symbolic link, already resolved to the path it points at.  The
    /// link is not stored as a link: when its target exists, the target
    /// path itself joins the collection; a broken link is skipped.
    SymbolicLink { target: String, target_exists: bool },
    /// Nothing of that name exists; the path is silently skipped.
    Absent,
}

/// One input path together with what the filesystem found it to be.
#[derive(Clone, Debug, PartialEq, Eq)]
pub struct ClassifiedPath {
    /// The path as it was requested.
    pub path: String,
    /// What the lookup found.
    pub kind: PathKind,
}

/// Whether a classified path becomes an archive member of its own round:
/// files do, and directories do as well, since the container format stores
/// directory entries.
pub open spec fn yields_member(c: ClassifiedPath) -> bool {
    c.kind is File || c.kind is Directory
}

/// Whether a classified path is a directory whose children are collected.
pub open spec fn is_directory(c: ClassifiedPath) -> bool {
    c.kind is Directory
}

/// Whether a classified path is a symbolic link whose target exists.
pub open spec fn is_live_link(c: ClassifiedPath) -> bool {
    c.kind matches PathKind::SymbolicLink { target_exists: true, .. }
}

/// The requested path of a classified path.
pub open spec fn requested_path(c: ClassifiedPath) -> Seq<char> {
    c.path@
}

/// The resolved target of a symbolic link; empty for every other kind.
pub open spec fn link_target(c: ClassifiedPath) -> Seq<char> {
    match c.kind {
        PathKind::SymbolicLink { target, .. } => target@,
        _ => Seq::empty(),
    }
}

/// The member paths one classified batch contributes, in input order.
pub open spec fn member_paths(s: Seq<ClassifiedPath>) -> Seq<Seq<char>> {
    s.filter(|c: ClassifiedPath| yields_member(c)).map_values(|c: ClassifiedPath| requested_path(c))
}

/// The directories of one classified batch, in input order.
pub open spec fn directory_paths(s: Seq<ClassifiedPath>) -> Seq<Seq<char>> {
    s.filter(|c: ClassifiedPath| is_directory(c)).map_values(|c: ClassifiedPath| requested_path(c))
}

/// The resolved targets of the live symbolic links of one classified batch,
/// in input order.
pub open spec fn live_link_targets(s: Seq<ClassifiedPath>) -> Seq<Seq<char>> {
    s.filter(|c: ClassifiedPath| is_live_link(c)).map_values(|c: ClassifiedPath| link_target(c))
}

/// The pending set after one classified batch joins it: each member path
/// is appended in input order, except those already collected — the first
/// occurrence wins, and a later one is dropped, so no path is ever listed
/// twice.
pub open spec fn append_new(pending: Seq<Seq<char>>, members: Seq<Seq<char>>) -> Seq<Seq<char>>
    decreases members.len(),
{
    if members.len() == 0 {
        pending
    } else {
        let rest = append_new(pending, members.drop_last());
        if rest.contains(members.last()) {
            rest
        } else {
            rest.push(members.last())
        }
    }
}

/// One more member path extends the deduplicated pending set exactly when
/// it is new.
proof fn lemma_append_new_push(pending: Seq<Seq<char>>, members: Seq<Seq<char>>, x: Seq<char>)
    ensures
        append_new(pending, members.push(x)) == if append_new(pending, members).contains(x) {
            append_new(pending, members)
        } else {
            append_new(pending, members).push(x)
        },
{
    assert(members.push(x).drop_last() =~= members);
    assert(members.push(x).last() == x);
}

/// A deduplicated extension of a duplicate-free pending set stays
/// duplicate-free.
pub proof fn lemma_append_new_no_duplicates(pending: Seq<Seq<char>>, members: Seq<Seq<char>>)
    requires
        pending.no_duplicates(),
    ensures
        append_new(pending, members).no_duplicates(),
    decreases members.len(),
{
    if members.len() > 0 {
        lemma_append_new_no_duplicates(pending, members.drop_last());
        let rest = append_new(pending, members.drop_last());
        let x = members.last();
        if !rest.contains(x) {
            assert forall|i: int, j: int|
                0 <= i < rest.push(x).len() && 0 <= j < rest.push(x).len() && i
                    != j implies rest.push(x)[i] != rest.push(x)[j] by {
                if i < rest.len() && j < rest.len() {
                    assert(rest.push(x)[i] == rest[i] && rest.push(x)[j] == rest[j]);
                } else if j == rest.len() {
                    assert(rest.push(x)[i] == rest[i] && rest.push(x)[j] == x);
                } else {
                    assert(rest.push(x)[i] == x && rest.push(x)[j] == rest[j]);
                }
            }
        }
    }
}

/// Deduplication loses no path: after a batch joins the pending set, the
/// set holds exactly the paths it held before plus the batch's member
/// paths.
pub proof fn lemma_append_new_contains(pending: Seq<Seq<char>>, members: Seq<Seq<char>>)
    ensures
        forall|path: Seq<char>|
            #[trigger] append_new(pending, members).contains(path) <==> (pending.contains(path)
                || members.contains(path)),
    decreases members.len(),
{
    if members.len() > 0 {
        let prior = members.drop_last();
        let x = members.last();
        let rest = append_new(pending, prior);
        let whole = append_new(pending, members);
        lemma_append_new_contains(pending, prior);
        assert forall|path: Seq<char>| #[trigger] whole.contains(path) implies (pending.contains(
            path,
        ) || members.contains(path)) by {
            let k = choose|k: int| 0 <= k < whole.len() && whole[k] == path;
            if k < rest.len() {
                assert(whole[k] == rest[k]);
                assert(rest.contains(path));
                if prior.contains(path) {
                    let k2 = choose|k2: int| 0 <= k2 < prior.len() && prior[k2] == path;
                    assert(members[k2] == path);
                }
            } else {
                assert(whole[k] == x);
                assert(members[members.len() - 1] == path);
            }
        }
        assert forall|path: Seq<char>| pending.contains(path) || members.contains(
            path,
        ) implies #[trigger] whole.contains(path) by {
            if pending.contains(path) || prior.contains(path) {
                if prior.contains(path) {
                    let k = choose|k: int| 0 <= k < prior.len() && prior[k] == path;
                    assert(members[k] == prior[k]);
                }
                assert(rest.contains(path));
                if !rest.contains(x) {
                    let k = choose|k: int| 0 <= k < rest.len() && rest[k] == path;
                    assert(whole[k] == path);
                }
            } else {
                let k = choose|k: int| 0 <= k < members.len() && members[k] == path;
                if k < members.len() - 1 {
                    assert(prior[k] == path);
                    assert(rest.contains(path));
                    if !rest.contains(x) {
                        let j = choose|j: int| 0 <= j < rest.len() && rest[j] == path;
                        assert(whole[j] == path);
                    }
                } else {
                    assert(path == x);
                    if rest.contains(x) {
                        assert(whole.contains(path));
                    } else {
                        assert(whole[rest.len() as int] == x);
                    }
                }
            }
        }
    }
}

/// Whether one of the already collected paths equals `path`.
fn already_collected(pending: &Vec<String>, path: &String) -> (r: bool)
    ensures
        r == pending.deep_view().contains(path@),
{
    let mut i: usize = 0;
    while i < pending.len()
        invariant
            i <= pending.len(),
            forall|j: int| 0 <= j < i ==> pending.deep_view()[j] != path@,
        decreases pending.len() - i,
    {
        if pending[i].eq(path) {
            assert(pending.deep_view()[i as int] == path@);
            return true;
        }
        i += 1;
    }
    false
}

/// One classified batch, split into the three buckets the collection order
/// is built from.
pub struct MemberBuckets {
    /// The member paths of this batch: its files and directories, in input
    /// order.
    pub members: Vec<String>,
    /// The directories of this batch, whose children are collected next.
    pub directories: Vec<String>,
    /// The resolved targets of this batch's live symbolic links, collected
    /// after all directories.
    pub link_targets: Vec<String>,
}

/// Splits one classified batch into members, directories and link targets.
///
/// A broken symbolic link and an absent path contribute to no bucket: they
/// are skipped without failing the collection.
pub fn partition(inputs: &Vec<ClassifiedPath>) -> (b: MemberBuckets)
    ensures
        b.members.deep_view() == member_paths(inputs@),
        b.directories.deep_view() == directory_paths(inputs@),
        b.link_targets.deep_view() == live_link_targets(inputs@),
{
    let mut members: Vec<String> = Vec::new();
    let mut directories: Vec<String> = Vec::new();
    let mut link_targets: Vec<String> = Vec::new();
    let mut i: usize = 0;
    while i < inputs.len()
        invariant
            i <= inputs.len(),
            members.deep_view() == member_paths(inputs@.take(i as int)),
            directories.deep_view() == directory_paths(inputs@.take(i as int)),
            link_targets.deep_view() == live_link_targets(inputs@.take(i as int)),
        decreases inputs.len() - i,
    {
        let ghost prefix = inputs@.take(i as int);
        let ghost c = inputs@[i as int];
        proof {
            assert(inputs@.take(i + 1 as int) =~= prefix.push(c));
            lemma_filter_push(prefix, c, |c: ClassifiedPath| yields_member(c));
            lemma_filter_push(prefix, c, |c: ClassifiedPath| is_directory(c));
            lemma_filter_push(prefix, c, |c: ClassifiedPath| is_live_link(c));
            if yields_member(c) {
                lemma_map_values_push(
                    prefix.filter(|c: ClassifiedPath| yields_member(c)),
                    c,
                    |c: ClassifiedPath| requested_path(c),
                );
            }
            if is_directory(c) {
                lemma_map_values_push(
                    prefix.filter(|c: ClassifiedPath| is_directory(c)),
                    c,
                    |c: ClassifiedPath| requested_path(c),
                );
            }
            if is_live_link(c) {
                lemma_map_values_push(
                    prefix.filter(|c: ClassifiedPath| is_live_link(c)),
                    c,
                    |c: ClassifiedPath| link_target(c),
                );
            }
        }
        match &inputs[i].kind {
            PathKind::File => {
                let ghost (prev, deep) = (members@, members.deep_view());
                members.push(inputs[i].path.clone());
                proof {
                    lemma_deep_view_after_push(prev, deep, &members);
                }
            },
            PathKind::Directory => {
                let ghost (prev, deep) = (directories@, directories.deep_view());
                directories.push(inputs[i].path.clone());
                proof {
                    lemma_deep_view_after_push(prev, deep, &directories);
                }
                let ghost (prev, deep) = (members@, members.deep_view());
                members.push(inputs[i].path.clone());
                proof {
                    lemma_deep_view_after_push(prev, deep, &members);
                }
            },
            PathKind::SymbolicLink { target, target_exists } => {
                if *target_exists {
                    let ghost (prev, deep) = (link_targets@, link_targets.deep_view());
                    link_targets.push(target.clone());
                    proof {
                        lemma_deep_view_after_push(prev, deep, &link_targets);
                    }
                }
            },
            PathKind::Absent => {},
        }
        i += 1;
    }
    proof {
        assert(inputs@.take(inputs@.len() as int) =~= inputs@);
    }
    MemberBuckets { members, directories, link_targets }
}

/// One unit of work the collector asks its driver to perform.
#[derive(Clone, Debug, PartialEq, Eq)]
pub enum CollectTask {
    /// Look each of these paths up and report the classified batch back
    /// through `Collector::on_classified`.
    Classify { paths: Vec<String> },
    /// List the immediate children of this directory and report them back
    /// through `Collector::on_children`.
    ReadDirectory { path: String },
}

/// The worklist machine that assembles the pending member set.
///
/// The driver repeatedly takes the next task, performs the lookup it names,
/// and reports the outcome; when no task is left, `pending` is the complete
/// pending member set in collection order.  Keeping the recursion as an
/// explicit worklist bounds the stack on deep directory trees; the depth of
/// the traversal itself is bounded only by the filesystem, so a cyclic
/// symbolic-link structure can keep a driver collecting indefinitely.
pub struct Collector {
    /// The work still to do; the last element is taken up next.
    pub stack: Vec<CollectTask>,
    /// The member paths collected so far, in collection order.
    pub pending: Vec<String>,
}

impl Collector {
    /// Starts a collection over the requested input paths.
    pub fn new(inputs: Vec<String>) -> (c: Collector)
        ensures
            c.pending@.len() == 0,
            c.stack@.len() == 1,
            c.stack@[0] is Classify,
            c.stack@[0]->Classify_paths@ == inputs@,
    {
        let mut stack: Vec<CollectTask> = Vec::new();
        stack.push(CollectTask::Classify { paths: inputs });
        Collector { stack, pending: Vec::new() }
    }

    /// Hands the driver the next task, or nothing when the collection is
    /// complete.
    pub fn next_task(&mut self) -> (t: Option<CollectTask>)
        ensures
            final(self).pending@ == old(self).pending@,
            old(self).stack@.len() == 0 ==> t is None && final(self).stack@ == old(self).stack@,
            old(self).stack@.len() > 0 ==> t == Some(old(self).stack@.last())
                && final(self).stack@ == old(self).stack@.drop_last(),
    {
        self.stack.pop()
    }

    /// Takes the outcome of a `Classify` task.
    ///
    /// The batch's files and directories join the pending set, in input
    /// order; a path that was already collected is dropped, so the first
    /// occurrence wins and the pending set never lists a path twice.  The
    /// children of each directory are collected next, first directory
    /// first and each one's subtree completely before the next; the
    /// batch's live link targets are collected after all of them.  A
    /// broken link or an absent path contributes nothing.
    pub fn on_classified(&mut self, results: &Vec<ClassifiedPath>)
        ensures
            final(self).pending.deep_view() == append_new(
                old(self).pending.deep_view(),
                member_paths(results@),
            ),
            old(self).pending.deep_view().no_duplicates() ==> final(self).pending.deep_view().no_duplicates(),
            final(self).stack@.len() == old(self).stack@.len() + link_task_count(results@)
                + directory_paths(results@).len(),
            final(self).stack@.subrange(0, old(self).stack@.len() as int) == old(self).stack@,
            live_link_targets(results@).len() > 0 ==> final(self).stack@[old(self).stack@.len() as int]
                is Classify && final(self).stack@[old(self).stack@.len() as int]->Classify_paths.deep_view()
                == live_link_targets(results@),
            forall|k: int|
                #![trigger final(self).stack@[old(self).stack@.len() + link_task_count(results@) + k]]
                0 <= k < directory_paths(results@).len()
                    ==> final(self).stack@[old(self).stack@.len() + link_task_count(results@) + k]
                    is ReadDirectory
                    && final(self).stack@[old(self).stack@.len() + link_task_count(results@) + k]->ReadDirectory_path@
                    == directory_paths(results@)[directory_paths(results@).len() - 1 - k],
    {
        let MemberBuckets { members, directories, link_targets } = partition(results);
        let mut i: usize = 0;
        while i < members.len()
            invariant
                i <= members@.len(),
                members.deep_view() == member_paths(results@),
                self.stack@ == old(self).stack@,
                self.pending.deep_view() == append_new(
                    old(self).pending.deep_view(),
                    member_paths(results@).take(i as int),
                ),
            decreases members@.len() - i,
        {
            let ghost batch = member_paths(results@);
            let ghost prefix = batch.take(i as int);
            let member = members[i].clone();
            proof {
                assert(member@ == members.deep_view()[i as int]);
                assert(batch.take(i + 1 as int) =~= prefix.push(batch[i as int]));
            }
            let duplicate = already_collected(&self.pending, &member);
            if !duplicate {
                let ghost prev = self.pending@;
                let ghost deep = self.pending.deep_view();
                self.pending.push(member);
                proof {
                    lemma_deep_view_after_push(prev, deep, &self.pending);
                }
            }
            proof {
                lemma_append_new_push(old(self).pending.deep_view(), prefix, batch[i as int]);
            }
            i += 1;
        }
        proof {
            assert(member_paths(results@).take(member_paths(results@).len() as int)
                =~= member_paths(results@));
            if old(self).pending.deep_view().no_duplicates() {
                lemma_append_new_no_duplicates(
                    old(self).pending.deep_view(),
                    member_paths(results@),
                );
            }
        }
        if link_targets.len() > 0 {
            self.stack.push(CollectTask::Classify { paths: link_targets });
        }
        let ghost mid = self.stack@;
        let dir_count: usize = directories.len();
        let mut k: usize = dir_count;
        while k > 0
            invariant
                k <= dir_count,
                dir_count == directories@.len(),
                directories.deep_view() == directory_paths(results@),
                self.pending.deep_view() == append_new(
                    old(self).pending.deep_view(),
                    member_paths(results@),
                ),
                old(self).pending.deep_view().no_duplicates()
                    ==> self.pending.deep_view().no_duplicates(),
                mid.len() == old(self).stack@.len() + link_task_count(results@),
                mid.subrange(0, old(self).stack@.len() as int) == old(self).stack@,
                live_link_targets(results@).len() > 0 ==> mid.last() is Classify
                    && mid.last()->Classify_paths.deep_view() == live_link_targets(results@),
                self.stack@.len() == mid.len() + (dir_count - k),
                self.stack@.subrange(0, mid.len() as int) == mid,
                forall|j: int|
                    0 <= j < dir_count - k ==> (#[trigger] self.stack@[mid.len() + j])
                        is ReadDirectory && self.stack@[mid.len() + j]->ReadDirectory_path@
                        == directories.deep_view()[dir_count - 1 - j],
            decreases k,
        {
            let ghost before = self.stack@;
            k -= 1;
            self.stack.push(CollectTask::ReadDirectory { path: directories[k].clone() });
            proof {
                assert(self.stack@.subrange(0, mid.len() as int) =~= before.subrange(
                    0,
                    mid.len() as int,
                ));
                assert(directories@[k as int]@ == directories.deep_view()[k as int]);
            }
        }
    }

    /// Takes the outcome of a `ReadDirectory` task: a non-empty batch of
    /// children is classified next; an empty directory adds nothing.
    pub fn on_children(&mut self, children: Vec<String>)
        ensures
            final(self).pending@ == old(self).pending@,
            children@.len() == 0 ==> final(self).stack@ == old(self).stack@,
            children@.len() > 0 ==> final(self).stack@ == old(self).stack@.push(
                final(self).stack@.last(),
            ) && final(self).stack@.last() is Classify
                && final(self).stack@.last()->Classify_paths@ == children@,
    {
        if children.len() > 0 {
            self.stack.push(CollectTask::Classify { paths: children });
        }
    }

    /// Whether every task has been worked off.
    pub fn finished(&self) -> (r: bool)
        ensures
            r == (self.stack@.len() == 0),
    {
        self.stack.len() == 0
    }

    /// Surrenders the assembled pending member set, in collection order.
    pub fn into_pending(self) -> (r: Vec<String>)
        ensures
            r == self.pending,
    {
        self.pending
    }
}

/// How many `Classify` tasks one classified batch schedules for its live
/// link targets: one when there are any, none otherwise.
pub open spec fn link_task_count(s: Seq<ClassifiedPath>) -> int {
    if live_link_targets(s).len() > 0 {
        1
    } else {
        0
    }
}

/// A symbolic link never becomes a member under its own name.  A broken
/// one contributes nothing at all, and a live one schedules exactly the
/// path it points at for collection, so the member the collection
/// eventually adds carries the target's name.
pub proof fn lemma_symlink_contribution(c: ClassifiedPath)
    requires
        c.kind is SymbolicLink,
    ensures
        member_paths(seq![c]) == Seq::<Seq<char>>::empty(),
        directory_paths(seq![c]) == Seq::<Seq<char>>::empty(),
        c.kind->target_exists ==> live_link_targets(seq![c]) == seq![c.kind->target@],
        !c.kind->target_exists ==> live_link_targets(seq![c]) == Seq::<Seq<char>>::empty(),
{
    reveal(Seq::filter);
    let s = seq![c];
    let e = Seq::<ClassifiedPath>::empty();
    assert(e.push(c) =~= s);
    lemma_filter_push(e, c, |c: ClassifiedPath| yields_member(c));
    lemma_filter_push(e, c, |c: ClassifiedPath| is_directory(c));
    lemma_filter_push(e, c, |c: ClassifiedPath| is_live_link(c));
    assert(e.filter(|c: ClassifiedPath| yields_member(c)).map_values(
        |c: ClassifiedPath| requested_path(c),
    ) =~= Seq::<Seq<char>>::empty());
    assert(e.filter(|c: ClassifiedPath| is_directory(c)).map_values(
        |c: ClassifiedPath| requested_path(c),
    ) =~= Seq::<Seq<char>>::empty());
    if c.kind->target_exists {
        assert(e.filter(|c: ClassifiedPath| is_live_link(c)).push(c).map_values(
            |c: ClassifiedPath| link_target(c),
        ) =~= seq![c.kind->target@]);
    } else {
        assert(e.filter(|c: ClassifiedPath| is_live_link(c)).map_values(
            |c: ClassifiedPath| link_target(c),
        ) =~= Seq::<Seq<char>>::empty());
    }
}

} // verus!
