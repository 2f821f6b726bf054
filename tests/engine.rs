use stoic::node::{EntryPlan, FileKind, LinkOutcome, MakeStep, Node, SourceEntry, TargetState};
use stoic::paths::{join_path, parent_path, path_components, same_path_exec};

fn node(src: &str, target: &str, recursive: bool) -> Node {
    Node { src: src.to_string(), target: target.to_string(), recursive }
}

fn entry(name: &str, kind: FileKind) -> SourceEntry {
    SourceEntry { name: name.to_string(), kind }
}

#[test]
fn join_inserts_one_separator() {
    assert_eq!(join_path("/home/u", ".bashrc"), "/home/u/.bashrc");
    assert_eq!(join_path("/home/u/", ".bashrc"), "/home/u/.bashrc");
    assert_eq!(join_path("", "a"), "a");
    assert_eq!(join_path("/home/u", "/etc/hosts"), "/etc/hosts");
}

#[test]
fn parent_goes_up_one_component() {
    assert_eq!(parent_path("/a/b/c"), Some("/a/b".to_string()));
    assert_eq!(parent_path("/a/b/"), Some("/a".to_string()));
    assert_eq!(parent_path("/a"), Some("/".to_string()));
    assert_eq!(parent_path("/"), None);
    assert_eq!(parent_path("plain"), None);
}

#[test]
fn make_dispatches_on_source_type() {
    let n = node("/cfg/nvim", "/home/u/.config/nvim", true);
    assert_eq!(n.make(Some(FileKind::File)), MakeStep::LinkFile);
    assert_eq!(n.make(Some(FileKind::Dir)), MakeStep::WalkDir);
    assert_eq!(n.make(Some(FileKind::Symlink)), MakeStep::SkipSymlink);
    assert_eq!(n.make(Some(FileKind::Other)), MakeStep::Unclassifiable);
    assert_eq!(n.make(None), MakeStep::SourceMissing);
}

#[test]
fn absent_target_is_created() {
    let n = node("/cfg/vimrc", "/home/u/.vimrc", false);
    assert_eq!(n.make_file_link(TargetState::Absent), LinkOutcome::Created);
}

#[test]
fn correct_link_is_left_alone() {
    let n = node("/cfg/vimrc", "/home/u/.vimrc", false);
    let state = TargetState::Link("/cfg/vimrc".to_string());
    assert_eq!(n.make_file_link(state), LinkOutcome::AlreadyCorrect);
}

#[test]
fn wrong_link_is_repaired() {
    let n = node("/cfg/vimrc", "/home/u/.vimrc", false);
    let state = TargetState::Link("/old/vimrc".to_string());
    assert_eq!(n.make_file_link(state), LinkOutcome::Repaired);
}

#[test]
fn broken_link_is_repaired() {
    let n = node("/cfg/vimrc", "/home/u/.vimrc", false);
    assert_eq!(n.make_file_link(TargetState::BrokenLink), LinkOutcome::Repaired);
    assert_eq!(n.solve_existing_link(&None), LinkOutcome::Repaired);
}

#[test]
fn occupied_target_is_a_conflict() {
    let n = node("/cfg/vimrc", "/home/u/.vimrc", false);
    assert_eq!(n.make_file_link(TargetState::Occupied), LinkOutcome::Conflict);
}

#[test]
fn second_run_finds_link_in_place() {
    let n = node("/cfg/vimrc", "/home/u/.vimrc", false);
    assert_eq!(n.make_file_link(TargetState::Absent), LinkOutcome::Created);
    let after = TargetState::Link(n.src.clone());
    assert_eq!(n.make_file_link(after), LinkOutcome::AlreadyCorrect);
}

#[test]
fn recursive_walk_plans_nested_files() {
    let n = node("/cfg/nvim", "/home/u/.config/nvim", true);
    let plans = n.handle_dir(&vec![entry("init.lua", FileKind::File), entry("lua", FileKind::Dir)]);
    assert_eq!(plans.len(), 2);
    match &plans[0] {
        EntryPlan::LinkFile(c) => {
            assert_eq!(c.src, "/cfg/nvim/init.lua");
            assert_eq!(c.target, "/home/u/.config/nvim/init.lua");
        }
        p => panic!("unexpected plan {:?}", p),
    }
    let lua = match &plans[1] {
        EntryPlan::Descend(c) => c,
        p => panic!("unexpected plan {:?}", p),
    };
    assert_eq!(lua.src, "/cfg/nvim/lua");
    assert_eq!(lua.target, "/home/u/.config/nvim/lua");
    assert!(lua.recursive);
    assert_eq!(lua.make(Some(FileKind::Dir)), MakeStep::WalkDir);
    let inner = lua.handle_dir(&vec![entry("a.lua", FileKind::File)]);
    match &inner[0] {
        EntryPlan::LinkFile(c) => {
            assert_eq!(c.src, "/cfg/nvim/lua/a.lua");
            assert_eq!(c.target, "/home/u/.config/nvim/lua/a.lua");
        }
        p => panic!("unexpected plan {:?}", p),
    }
}

#[test]
fn flat_walk_skips_subdirectories() {
    let n = node("/cfg/nvim", "/home/u/.config/nvim", false);
    let plans = n.handle_dir(&vec![entry("lua", FileKind::Dir), entry("init.lua", FileKind::File)]);
    assert!(matches!(plans[0], EntryPlan::SkipDir));
    assert!(matches!(plans[1], EntryPlan::LinkFile(_)));
}

#[test]
fn source_symlinks_are_skipped() {
    for recursive in [false, true] {
        let n = node("/cfg/nvim", "/home/u/.config/nvim", recursive);
        let plans = n.handle_dir(&vec![entry("alias", FileKind::Symlink), entry("fifo", FileKind::Other)]);
        assert!(matches!(plans[0], EntryPlan::SkipSymlink));
        assert!(matches!(plans[1], EntryPlan::Unclassifiable));
    }
}

#[test]
fn empty_directory_has_no_plans() {
    let n = node("/cfg/empty", "/home/u/empty", true);
    assert!(n.handle_dir(&vec![]).is_empty());
}

#[test]
fn components_drop_empty_and_dot_runs() {
    assert_eq!(path_components("/cfg//nvim/./init.lua/"), vec!["cfg", "nvim", "init.lua"]);
    assert_eq!(path_components("./a/."), vec![".", "a"]);
    assert!(path_components("/").is_empty());
}

#[test]
fn same_path_compares_components() {
    assert!(same_path_exec("/cfg//vimrc/", "/cfg/vimrc"));
    assert!(!same_path_exec("cfg/vimrc", "/cfg/vimrc"));
    assert!(!same_path_exec("./a", "a"));
    assert!(!same_path_exec("/cfg/vimrc", "/cfg/vimrc2"));
}

#[test]
fn link_spelled_differently_is_correct() {
    let n = node("/cfg/vimrc", "/home/u/.vimrc", false);
    let state = TargetState::Link("/cfg//vimrc/".to_string());
    assert_eq!(n.make_file_link(state), LinkOutcome::AlreadyCorrect);
}
