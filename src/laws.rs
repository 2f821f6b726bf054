//! Properties of reconciliation as a whole, proved from the decisions in
//! `node`.
use crate::node::{
    after_link, child_of, entry_plan, link_outcome, make_step, FileKind, LinkOutcome,
    MakeStep, NodeView, PlanView, TargetModel,
};
use crate::paths::{joined, same_path};
use vstd::prelude::*;

verus! {

/// Reconciling the same link twice in a row: after the second run the
/// target is as the first left it, and the second reports `AlreadyCorrect`
/// wherever the first created or repaired the link (or found it correct).
pub proof fn lemma_link_idempotent(src: Seq<char>, t: TargetModel)
    ensures
        ({
            let o1 = link_outcome(src, t);
            let t1 = after_link(t, src, o1);
            let o2 = link_outcome(src, t1);
            &&& after_link(t1, src, o2) == t1
            &&& o1 != LinkOutcome::Conflict ==> o2 == LinkOutcome::AlreadyCorrect
            &&& o1 == LinkOutcome::Conflict ==> o2 == LinkOutcome::Conflict
        }),
{
}

/// The state a target reaches when the link to `src` is reconciled at it
/// once, from state `t`.
pub open spec fn reconciled_once(src: Seq<char>, t: TargetModel) -> TargetModel {
    after_link(t, src, link_outcome(src, t))
}

/// Reconciling a directory mapping twice over the same listing: every file
/// entry is planned as a link from the same target path both times, the
/// second run leaves each such target as the first left it, and reports
/// `AlreadyCorrect` for every entry the first run created or repaired.
pub proof fn lemma_walk_idempotent(
    n: NodeView,
    names: Seq<Seq<char>>,
    kinds: Seq<FileKind>,
    states: Seq<TargetModel>,
)
    requires
        names.len() == kinds.len(),
        names.len() == states.len(),
    ensures
        forall|i: int|
            #![trigger kinds[i]]
            0 <= i < names.len() && kinds[i] == FileKind::File ==> {
                let c = child_of(n, names[i]);
                let t1 = reconciled_once(c.src, states[i]);
                &&& entry_plan(n, names[i], kinds[i]) == PlanView::LinkFile(c)
                &&& reconciled_once(c.src, t1) == t1
                &&& link_outcome(c.src, states[i]) != LinkOutcome::Conflict ==> link_outcome(
                    c.src,
                    t1,
                ) == LinkOutcome::AlreadyCorrect
            },
{
    assert forall|i: int| #![trigger kinds[i]] 0 <= i < names.len() && kinds[i] == FileKind::File implies {
        let c = child_of(n, names[i]);
        let t1 = reconciled_once(c.src, states[i]);
        &&& entry_plan(n, names[i], kinds[i]) == PlanView::LinkFile(c)
        &&& reconciled_once(c.src, t1) == t1
        &&& link_outcome(c.src, states[i]) != LinkOutcome::Conflict ==> link_outcome(c.src, t1)
            == LinkOutcome::AlreadyCorrect
    } by {
        lemma_link_idempotent(child_of(n, names[i]).src, states[i]);
    }
}

/// A target that is not a link is reported as a conflict and left as it
/// was.
pub proof fn lemma_never_overwrites(src: Seq<char>)
    ensures
        link_outcome(src, TargetModel::Occupied) == LinkOutcome::Conflict,
        after_link(TargetModel::Occupied, src, LinkOutcome::Conflict) == TargetModel::Occupied,
{
}

/// A link to some other path (one that differs from the source in some
/// component) is replaced by a link to the source.
pub proof fn lemma_repairs_wrong_link(src: Seq<char>, old_src: Seq<char>)
    requires
        !same_path(old_src, src),
    ensures
        link_outcome(src, TargetModel::Link(old_src)) == LinkOutcome::Repaired,
        after_link(TargetModel::Link(old_src), src, link_outcome(src, TargetModel::Link(old_src)))
            == TargetModel::Link(src),
{
}

/// A link that does not resolve is replaced by a link to the source.
pub proof fn lemma_repairs_broken_link(src: Seq<char>)
    ensures
        link_outcome(src, TargetModel::BrokenLink) == LinkOutcome::Repaired,
        after_link(TargetModel::BrokenLink, src, link_outcome(src, TargetModel::BrokenLink))
            == TargetModel::Link(src),
{
}

/// `names` joined one after the other onto `base`.
pub open spec fn joined_all(base: Seq<char>, names: Seq<Seq<char>>) -> Seq<char>
    decreases names.len(),
{
    if names.len() == 0 {
        base
    } else {
        joined_all(joined(base, names[0]), names.drop_first())
    }
}

/// The plan reached for a file `file` that lies in the nested directories
/// `dirs` (outermost first) under directory mapping `n`: each directory is
/// planned in the mapping derived for its parent, and the walk stops at the
/// first one that is not descended into.
pub open spec fn nested_plan(n: NodeView, dirs: Seq<Seq<char>>, file: Seq<char>) -> PlanView
    decreases dirs.len(),
{
    if dirs.len() == 0 {
        entry_plan(n, file, FileKind::File)
    } else {
        match entry_plan(n, dirs[0], FileKind::Dir) {
            PlanView::Descend(c) => nested_plan(c, dirs.drop_first(), file),
            p => p,
        }
    }
}

/// Under a recursive mapping every file, at any depth, is linked from the
/// matching path under the target; under one that is not recursive nothing
/// below a subdirectory is reached.
pub proof fn lemma_recursive_gating(n: NodeView, dirs: Seq<Seq<char>>, file: Seq<char>)
    ensures
        n.recursive ==> nested_plan(n, dirs, file) == PlanView::LinkFile(
            NodeView {
                src: joined_all(n.src, dirs.push(file)),
                target: joined_all(n.target, dirs.push(file)),
                recursive: true,
            },
        ),
        !n.recursive && dirs.len() > 0 ==> nested_plan(n, dirs, file) == PlanView::SkipDir,
    decreases dirs.len(),
{
    if dirs.len() == 0 {
        assert(dirs.push(file).drop_first() =~= Seq::<Seq<char>>::empty());
        assert(dirs.push(file)[0] == file);
        assert(joined_all(joined(n.src, file), Seq::<Seq<char>>::empty()) == joined(n.src, file));
        assert(joined_all(joined(n.target, file), Seq::<Seq<char>>::empty()) == joined(
            n.target,
            file,
        ));
        assert(joined_all(n.src, dirs.push(file)) == joined(n.src, file));
        assert(joined_all(n.target, dirs.push(file)) == joined(n.target, file));
    } else if n.recursive {
        let c = child_of(n, dirs[0]);
        lemma_recursive_gating(c, dirs.drop_first(), file);
        assert(dirs.push(file).drop_first() =~= dirs.drop_first().push(file));
        assert(dirs.push(file)[0] == dirs[0]);
        assert(joined_all(n.src, dirs.push(file)) == joined_all(c.src, dirs.drop_first().push(file)));
        assert(joined_all(n.target, dirs.push(file)) == joined_all(
            c.target,
            dirs.drop_first().push(file),
        ));
    }
}

/// Reconciling a whole directory mapping twice: a file at any depth below
/// it is planned as the same link both times (plans depend on the listing
/// alone, never on the targets), the second run leaves that link's target
/// as the first left it, and reports `AlreadyCorrect` wherever the first
/// did not meet a conflict.
pub proof fn lemma_mapping_idempotent(
    n: NodeView,
    dirs: Seq<Seq<char>>,
    file: Seq<char>,
    t: TargetModel,
)
    ensures
        nested_plan(n, dirs, file) matches PlanView::LinkFile(c) ==> {
            let t1 = reconciled_once(c.src, t);
            &&& reconciled_once(c.src, t1) == t1
            &&& link_outcome(c.src, t) != LinkOutcome::Conflict ==> link_outcome(c.src, t1)
                == LinkOutcome::AlreadyCorrect
        },
        n.recursive ==> nested_plan(n, dirs, file) is LinkFile,
{
    lemma_recursive_gating(n, dirs, file);
    if let PlanView::LinkFile(c) = nested_plan(n, dirs, file) {
        lemma_link_idempotent(c.src, t);
    }
}

/// An entry of a source directory that is a symbolic link is never
/// mirrored, whether the mapping is recursive or not; nor is a mapping
/// whose source is itself a link.
pub proof fn lemma_source_symlinks_skipped(n: NodeView, name: Seq<char>)
    ensures
        entry_plan(n, name, FileKind::Symlink) == PlanView::SkipSymlink,
        entry_plan(NodeView { recursive: !n.recursive, ..n }, name, FileKind::Symlink)
            == PlanView::SkipSymlink,
        make_step(Some(FileKind::Symlink)) == MakeStep::SkipSymlink,
{
}

} // verus!
