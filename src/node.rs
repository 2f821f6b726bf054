//! One declared mapping and the decisions taken while reconciling it.
use crate::paths::{join_path, joined, same_path, same_path_exec};
use vstd::prelude::*;

verus! {

/// What a symlink-aware stat reports of a path.
#[derive(Clone, Copy, Debug, PartialEq, Eq, Structural)]
pub enum FileKind {
    File,
    Dir,
    Symlink,
    Other,
}

/// A mapping: `src` is mirrored at `target` through symbolic links.
#[derive(Debug)]
pub struct Node {
    /// A regular file or a directory.
    pub src: String,
    /// Where `src` is linked when it is a file; the directory that mirrors
    /// its entries when it is a directory.
    pub target: String,
    /// Whether subdirectories of a directory `src` are mirrored as well.
    pub recursive: bool,
}

/// The mathematical value of a `Node`.
pub struct NodeView {
    pub src: Seq<char>,
    pub target: Seq<char>,
    pub recursive: bool,
}

impl View for Node {
    type V = NodeView;

    open spec fn view(&self) -> NodeView {
        NodeView { src: self.src@, target: self.target@, recursive: self.recursive }
    }
}

/// The state a link target is found in.
#[derive(Debug)]
pub enum TargetState {
    /// Nothing is at the path.
    Absent,
    /// A symbolic link whose destination resolves; it holds that destination.
    Link(String),
    /// A symbolic link whose destination cannot be read or resolved.
    BrokenLink,
    /// A regular file, a directory or another entry that is not a link.
    Occupied,
}

/// The mathematical value of a `TargetState`.
pub enum TargetModel {
    Absent,
    Link(Seq<char>),
    BrokenLink,
    Occupied,
}

impl View for TargetState {
    type V = TargetModel;

    open spec fn view(&self) -> TargetModel {
        match self {
            TargetState::Absent => TargetModel::Absent,
            TargetState::Link(d) => TargetModel::Link(d@),
            TargetState::BrokenLink => TargetModel::BrokenLink,
            TargetState::Occupied => TargetModel::Occupied,
        }
    }
}

/// What is done at a link target, and reported of it.
#[derive(Clone, Copy, Debug, PartialEq, Eq, Structural)]
pub enum LinkOutcome {
    /// Nothing was there: a link to the source is created.
    Created,
    /// A link to elsewhere, or a broken one, was there: it is removed and a
    /// link to the source is created in its place.
    Repaired,
    /// A link to the source (the same path, component by component) was
    /// there already: nothing is done.
    AlreadyCorrect,
    /// Data that is not a link is there: nothing is done.
    Conflict,
}

/// The outcome of reconciling a link to `src` at a target found in state `t`.
pub open spec fn link_outcome(src: Seq<char>, t: TargetModel) -> LinkOutcome {
    match t {
        TargetModel::Absent => LinkOutcome::Created,
        TargetModel::Link(d) => if same_path(d, src) {
            LinkOutcome::AlreadyCorrect
        } else {
            LinkOutcome::Repaired
        },
        TargetModel::BrokenLink => LinkOutcome::Repaired,
        TargetModel::Occupied => LinkOutcome::Conflict,
    }
}

/// The state of the target once outcome `o` has been carried out, the
/// source `src` being present: a created link resolves to it.
pub open spec fn after_link(t: TargetModel, src: Seq<char>, o: LinkOutcome) -> TargetModel {
    match o {
        LinkOutcome::Created | LinkOutcome::Repaired => TargetModel::Link(src),
        _ => t,
    }
}

/// How a mapping is taken on, given what a stat of its source reported.
#[derive(Clone, Copy, Debug, PartialEq, Eq, Structural)]
pub enum MakeStep {
    /// The source is a file: link `target` to it.
    LinkFile,
    /// The source is a directory: mirror its entries under `target`.
    WalkDir,
    /// The source is itself a symbolic link: nothing is done.
    SkipSymlink,
    /// The source is of another type: nothing is done.
    Unclassifiable,
    /// The source could not be stat'd: the mapping fails.
    SourceMissing,
}

/// The step taken for a mapping whose source stat reported `src_kind`.
pub open spec fn make_step(src_kind: Option<FileKind>) -> MakeStep {
    match src_kind {
        None => MakeStep::SourceMissing,
        Some(FileKind::File) => MakeStep::LinkFile,
        Some(FileKind::Dir) => MakeStep::WalkDir,
        Some(FileKind::Symlink) => MakeStep::SkipSymlink,
        Some(FileKind::Other) => MakeStep::Unclassifiable,
    }
}

/// An entry listed in a source directory.
#[derive(Debug)]
pub struct SourceEntry {
    /// Its file name within the directory.
    pub name: String,
    /// What a symlink-aware stat reported of it.
    pub kind: FileKind,
}

/// What is done with one entry of a source directory.
#[derive(Debug)]
pub enum EntryPlan {
    /// A file: reconcile a link from the node's target to its source.
    LinkFile(Node),
    /// A directory under a recursive mapping: reconcile this node too.
    Descend(Node),
    /// A directory under a mapping that is not recursive.
    SkipDir,
    /// A symbolic link: never mirrored.
    SkipSymlink,
    /// Another type of entry.
    Unclassifiable,
}

/// The mathematical value of an `EntryPlan`.
pub enum PlanView {
    LinkFile(NodeView),
    Descend(NodeView),
    SkipDir,
    SkipSymlink,
    Unclassifiable,
}

impl View for EntryPlan {
    type V = PlanView;

    open spec fn view(&self) -> PlanView {
        match self {
            EntryPlan::LinkFile(n) => PlanView::LinkFile(n@),
            EntryPlan::Descend(n) => PlanView::Descend(n@),
            EntryPlan::SkipDir => PlanView::SkipDir,
            EntryPlan::SkipSymlink => PlanView::SkipSymlink,
            EntryPlan::Unclassifiable => PlanView::Unclassifiable,
        }
    }
}

/// The mapping derived for entry `name` of a directory mapping `n`.
pub open spec fn child_of(n: NodeView, name: Seq<char>) -> NodeView {
    NodeView {
        src: joined(n.src, name),
        target: joined(n.target, name),
        recursive: n.recursive,
    }
}

/// The plan for entry `name`, of type `kind`, of directory mapping `n`.
pub open spec fn entry_plan(n: NodeView, name: Seq<char>, kind: FileKind) -> PlanView {
    match kind {
        FileKind::File => PlanView::LinkFile(child_of(n, name)),
        FileKind::Dir => if n.recursive {
            PlanView::Descend(child_of(n, name))
        } else {
            PlanView::SkipDir
        },
        FileKind::Symlink => PlanView::SkipSymlink,
        FileKind::Other => PlanView::Unclassifiable,
    }
}

impl Node {
    /// Decides how the mapping is taken on, from what a symlink-aware stat
    /// of `src` reported (`None`: the stat failed).
    pub fn make(&self, src_kind: Option<FileKind>) -> (r: MakeStep)
        ensures
            r == make_step(src_kind),
    {
        match src_kind {
            None => MakeStep::SourceMissing,
            Some(FileKind::File) => MakeStep::LinkFile,
            Some(FileKind::Dir) => MakeStep::WalkDir,
            Some(FileKind::Symlink) => MakeStep::SkipSymlink,
            Some(FileKind::Other) => MakeStep::Unclassifiable,
        }
    }

    /// Decides what to do with a target that is a symbolic link, given the
    /// destination it resolves to (`None`: it cannot be read or resolved).
    pub fn solve_existing_link(&self, dest: &Option<String>) -> (r: LinkOutcome)
        ensures
            r == link_outcome(
                self.src@,
                match dest {
                    Some(d) => TargetModel::Link(d@),
                    None => TargetModel::BrokenLink,
                },
            ),
    {
        match dest {
            Some(d) => if same_path_exec(d.as_str(), self.src.as_str()) {
                LinkOutcome::AlreadyCorrect
            } else {
                LinkOutcome::Repaired
            },
            None => LinkOutcome::Repaired,
        }
    }

    /// Decides what to do at `target` so that it becomes a link to `src`,
    /// given the state the target was found in.
    pub fn make_file_link(&self, state: TargetState) -> (r: LinkOutcome)
        ensures
            r == link_outcome(self.src@, state@),
    {
        match state {
            TargetState::Absent => LinkOutcome::Created,
            TargetState::Link(d) => self.solve_existing_link(&Some(d)),
            TargetState::BrokenLink => self.solve_existing_link(&None),
            TargetState::Occupied => LinkOutcome::Conflict,
        }
    }

    /// The mapping derived for entry `name` of this directory mapping.
    pub fn child(&self, name: &String) -> (r: Node)
        ensures
            r@ == child_of(self@, name@),
    {
        Node {
            src: join_path(self.src.as_str(), name.as_str()),
            target: join_path(self.target.as_str(), name.as_str()),
            recursive: self.recursive,
        }
    }

    /// Plans one entry of this directory mapping.
    pub fn plan_entry(&self, entry: &SourceEntry) -> (r: EntryPlan)
        ensures
            r@ == entry_plan(self@, entry.name@, entry.kind),
    {
        match entry.kind {
            FileKind::File => EntryPlan::LinkFile(self.child(&entry.name)),
            FileKind::Dir => if self.recursive {
                EntryPlan::Descend(self.child(&entry.name))
            } else {
                EntryPlan::SkipDir
            },
            FileKind::Symlink => EntryPlan::SkipSymlink,
            FileKind::Other => EntryPlan::Unclassifiable,
        }
    }

    /// Plans every entry listed in this mapping's source directory, in the
    /// order of the listing.
    pub fn handle_dir(&self, entries: &Vec<SourceEntry>) -> (r: Vec<EntryPlan>)
        ensures
            r.len() == entries.len(),
            forall|i: int|
                0 <= i < r.len() ==> #[trigger] r[i]@ == entry_plan(
                    self@,
                    entries[i].name@,
                    entries[i].kind,
                ),
    {
        let mut r: Vec<EntryPlan> = Vec::new();
        let mut i: usize = 0;
        while i < entries.len()
            invariant
                i <= entries.len(),
                r.len() == i,
                forall|j: int|
                    0 <= j < i ==> #[trigger] r[j]@ == entry_plan(
                        self@,
                        entries[j].name@,
                        entries[j].kind,
                    ),
            decreases entries.len() - i,
        {
            r.push(self.plan_entry(&entries[i]));
            i = i + 1;
        }
        r
    }
}

} // verus!
