//! The older form of the configuration: `dotfiles.toml` in the working
//! directory, whose entries name `config_path`, `target_path` and
//! `is_recursive`.
use crate::config::{table_bool, table_keys, table_str, toml_bool_field, toml_keys, toml_str_field};
use crate::node::{Node, NodeView};
use crate::paths::{join_path, joined};
use vstd::prelude::*;

verus! {

/// File name of the older configuration file.
pub const DOTFILES_FILE: &'static str = "dotfiles.toml";

/// A list of mappings, in the order they were added.
#[derive(Debug)]
pub struct Dotfiles {
    nodes: Vec<Node>,
}

/// The mapping declared under `key` of `content` in directory `cwd`;
/// `None` where the key declares no target.
pub open spec fn dotfile_node(cwd: Seq<char>, content: Seq<char>, key: Seq<char>) -> Option<
    NodeView,
> {
    match toml_str_field(content, key, "target_path"@) {
        None => None,
        Some(tp) => Some(
            NodeView {
                src: joined(
                    cwd,
                    match toml_str_field(content, key, "config_path"@) {
                        Some(c) => c,
                        None => key,
                    },
                ),
                target: tp,
                recursive: match toml_bool_field(content, key, "is_recursive"@) {
                    Some(b) => b,
                    None => false,
                },
            },
        ),
    }
}

/// Why the older configuration could not be read.
#[derive(Debug)]
pub enum DotfilesError {
    /// The file is not a TOML table.
    Parse,
    /// The entry under this key has no `target_path`.
    MissingTarget(String),
}

impl Dotfiles {
    pub closed spec fn view_nodes(&self) -> Seq<NodeView> {
        self.nodes@.map_values(|n: Node| n@)
    }

    /// An empty list.
    pub fn default() -> (r: Self)
        ensures
            r.view_nodes() == Seq::<NodeView>::empty(),
    {
        let r = Self { nodes: Vec::new() };
        assert(r.view_nodes() =~= Seq::<NodeView>::empty());
        r
    }

    /// Adds `node` at the end.
    pub fn push(&mut self, node: Node)
        ensures
            final(self).view_nodes() == old(self).view_nodes().push(node@),
    {
        self.nodes.push(node);
        assert(self.view_nodes() =~= old(self).view_nodes().push(node@));
    }

    /// The mappings, in the order they were added.
    pub fn get_nodes(self) -> (r: Vec<Node>)
        ensures
            r@.map_values(|n: Node| n@) == self.view_nodes(),
    {
        self.nodes
    }

    /// Reads the mappings that `content` declares, the file lying in the
    /// working directory `cwd`. Every top-level key declares one: its
    /// `config_path` (by default the key) is taken relative to `cwd`, its
    /// `target_path` as written, and `is_recursive` is false by default.
    pub fn parse_dotfiles(cwd: &str, content: &str) -> (r: Result<Dotfiles, DotfilesError>)
        ensures
            toml_keys(content@) is None <==> r matches Err(DotfilesError::Parse),
            r matches Err(DotfilesError::MissingTarget(k)) ==> toml_keys(content@) matches Some(
                keys,
            ) && keys.contains(k@) && dotfile_node(cwd@, content@, k@) is None,
            r matches Ok(d) ==> toml_keys(content@) matches Some(keys) && (forall|i: int|
                0 <= i < keys.len() ==> dotfile_node(cwd@, content@, #[trigger] keys[i]) is Some)
                && d.view_nodes() == keys.map_values(
                |k: Seq<char>| dotfile_node(cwd@, content@, k)->0,
            ),
    {
        let keys = match table_keys(content) {
            Some(k) => k,
            None => return Err(DotfilesError::Parse),
        };
        let ghost kv = keys@.map_values(|s: String| s@);
        let mut d = Dotfiles::default();
        let mut i: usize = 0;
        while i < keys.len()
            invariant
                i <= keys.len(),
                kv == keys@.map_values(|s: String| s@),
                toml_keys(content@) == Some(kv),
                forall|j: int| 0 <= j < i ==> dotfile_node(cwd@, content@, #[trigger] kv[j]) is Some,
                d.view_nodes() == kv.take(i as int).map_values(
                    |k: Seq<char>| dotfile_node(cwd@, content@, k)->0,
                ),
            decreases keys.len() - i,
        {
            let key = &keys[i];
            let tp = match table_str(content, key.as_str(), "target_path") {
                Some(tp) => tp,
                None => {
                    assert(kv[i as int] == key@);
                    return Err(DotfilesError::MissingTarget(key.clone()));
                },
            };
            let cp = match table_str(content, key.as_str(), "config_path") {
                Some(c) => c,
                None => key.clone(),
            };
            let recursive = match table_bool(content, key.as_str(), "is_recursive") {
                Some(b) => b,
                None => false,
            };
            let ghost before = d.view_nodes();
            d.push(Node { src: join_path(cwd, cp.as_str()), target: tp, recursive });
            proof {
                assert(kv[i as int] == key@);
                assert(kv.take(i + 1) =~= kv.take(i as int).push(key@));
                assert(d.view_nodes() =~= kv.take(i + 1).map_values(
                    |k: Seq<char>| dotfile_node(cwd@, content@, k)->0,
                ));
            }
            i = i + 1;
        }
        assert(kv.take(keys.len() as int) =~= kv);
        Ok(d)
    }
}

} // verus!
