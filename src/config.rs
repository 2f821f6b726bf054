//! The configuration file: where it is found, and the mappings it declares.
use crate::node::{Node, NodeView};
use crate::paths::{join_path, joined, parent_of, parent_path};
use path_absolutize::Absolutize;
use vstd::prelude::*;
use vstd::string::*;

verus! {

/// File name of the configuration file.
pub const CONFIG_FILE: &'static str = "stoic.toml";

/// The top-level keys of TOML document `content`, in the order they are
/// written; `None` where `content` is not a TOML table.
pub uninterp spec fn toml_keys(content: Seq<char>) -> Option<Seq<Seq<char>>>;

/// The string at `field` of the table under top-level `key` of TOML
/// document `content`; `None` where there is no such string.
pub uninterp spec fn toml_str_field(content: Seq<char>, key: Seq<char>, field: Seq<char>) -> Option<
    Seq<char>,
>;

/// The boolean at `field` of the table under top-level `key` of TOML
/// document `content`; `None` where there is no such boolean.
pub uninterp spec fn toml_bool_field(content: Seq<char>, key: Seq<char>, field: Seq<char>) -> Option<
    bool,
>;

/// `p` with `.` and `..` components resolved lexically, for a path that
/// starts at the root.
pub uninterp spec fn absolutized(p: Seq<char>) -> Seq<char>;

/// Relies on `toml::from_str` into a `toml::Table` and on the table's
/// `keys`: the keys of the document, or `None` where it does not parse.
/// With toml's `preserve_order` feature the table keeps the keys in the
/// order they are written.
#[verifier::external_body]
pub(crate) fn table_keys(content: &str) -> (r: Option<Vec<String>>)
    ensures
        match r {
            Some(v) => toml_keys(content@) == Some(v@.map_values(|s: String| s@)),
            None => toml_keys(content@) is None,
        },
{
    let t: toml::Table = toml::from_str(content).ok()?;
    Some(t.keys().cloned().collect())
}

/// Relies on `toml::from_str` into a `toml::Table`, on `Map::get`,
/// `Value::get` and `Value::as_str`: the string at `field` under `key`.
#[verifier::external_body]
pub(crate) fn table_str(content: &str, key: &str, field: &str) -> (r: Option<String>)
    ensures
        match r {
            Some(s) => toml_str_field(content@, key@, field@) == Some(s@),
            None => toml_str_field(content@, key@, field@) is None,
        },
{
    let t: toml::Table = toml::from_str(content).ok()?;
    t.get(key)?.get(field)?.as_str().map(String::from)
}

/// Relies on `toml::from_str` into a `toml::Table`, on `Map::get`,
/// `Value::get` and `Value::as_bool`: the boolean at `field` under `key`.
#[verifier::external_body]
pub(crate) fn table_bool(content: &str, key: &str, field: &str) -> (r: Option<bool>)
    ensures
        r == toml_bool_field(content@, key@, field@),
{
    let t: toml::Table = toml::from_str(content).ok()?;
    t.get(key)?.get(field)?.as_bool()
}

/// Relies on `path_absolutize::Absolutize::absolutize_from`: `p` is
/// resolved against `cwd` without reading the working directory, and every
/// branch of it returns `Ok`. With `cwd` absolute its list of components
/// always keeps the root, so it never runs empty (where it would panic). Its parts come from `p` and `cwd`, so the
/// result is valid text; a path that starts at the root is resolved from
/// its own components alone.
#[verifier::external_body]
fn absolutize_from(p: &str, cwd: &str) -> (r: Option<String>)
    requires
        is_absolute(cwd@),
    ensures
        r is Some,
        is_absolute(p@) ==> r->0@ == absolutized(p@),
{
    let abs = std::path::Path::new(p).absolutize_from(cwd).ok()?;
    abs.to_str().map(String::from)
}

/// Whether `p` starts at the root.
pub open spec fn is_absolute(p: Seq<char>) -> bool {
    p.len() > 0 && p[0] == '/'
}

/// Whether `tp` is written relative to the home directory (`~/...`).
pub open spec fn is_home_relative(tp: Seq<char>) -> bool {
    tp.len() >= 2 && tp[0] == '~' && tp[1] == '/'
}

/// Where target `tp`, declared in directory `dir`, resolves to, `home`
/// being the home directory.
pub open spec fn resolved_target(dir: Seq<char>, home: Seq<char>, tp: Seq<char>) -> Seq<char> {
    if is_home_relative(tp) {
        joined(home, tp.subrange(2, tp.len() as int))
    } else {
        absolutized(joined(dir, tp))
    }
}

/// The mapping declared under `key` of `content`, found in directory `dir`;
/// `None` where the key is the tool's own table or declares no target.
pub open spec fn declared_node(
    dir: Seq<char>,
    home: Seq<char>,
    content: Seq<char>,
    key: Seq<char>,
) -> Option<NodeView> {
    if key == "stoic"@ {
        None
    } else {
        match toml_str_field(content, key, "target"@) {
            None => None,
            Some(tp) => Some(
                NodeView {
                    src: absolutized(
                        joined(
                            dir,
                            match toml_str_field(content, key, "src"@) {
                                Some(s) => s,
                                None => key,
                            },
                        ),
                    ),
                    target: resolved_target(dir, home, tp),
                    recursive: match toml_bool_field(content, key, "recursive"@) {
                        Some(b) => b,
                        None => false,
                    },
                },
            ),
        }
    }
}

/// Whether the mapping under `key` has a target relative to the home
/// directory.
pub open spec fn needs_home(content: Seq<char>, key: Seq<char>) -> bool {
    key != "stoic"@ && match toml_str_field(content, key, "target"@) {
        Some(tp) => is_home_relative(tp),
        None => false,
    }
}

/// The mappings declared under `keys`, in their order.
pub open spec fn declared_nodes(
    dir: Seq<char>,
    home: Seq<char>,
    content: Seq<char>,
    keys: Seq<Seq<char>>,
) -> Seq<NodeView>
    decreases keys.len(),
{
    if keys.len() == 0 {
        Seq::empty()
    } else {
        let front = declared_nodes(dir, home, content, keys.drop_last());
        match declared_node(dir, home, content, keys.last()) {
            Some(n) => front.push(n),
            None => front,
        }
    }
}

/// Why the configuration could not be read.
#[derive(Clone, Copy, Debug, PartialEq, Eq, Structural)]
pub enum ConfigError {
    /// The file is not a TOML table.
    Parse,
    /// A target is relative to the home directory, which is unknown.
    NoHome,
}

/// One step of the upward search for the configuration file.
#[derive(Debug)]
pub enum CfgSearch {
    /// The file is in this directory.
    Found(String),
    /// Look in this directory next.
    Up(String),
    /// The root was reached without finding it.
    NotFound,
}

/// The configuration: the declared mappings, in declaration order.
#[derive(Debug)]
pub struct ConfigFile {
    pub nodes: Vec<Node>,
}

impl ConfigFile {
    /// The declared mappings as values.
    pub open spec fn nodes_view(&self) -> Seq<NodeView> {
        self.nodes@.map_values(|n: Node| n@)
    }

    /// The path of the configuration file within directory `dir`.
    pub fn config_path(dir: &str) -> (r: String)
        ensures
            r@ == joined(dir@, CONFIG_FILE@),
    {
        join_path(dir, CONFIG_FILE)
    }

    /// One step of the search that starts in the working directory and goes
    /// up: `config_exists` tells whether `cwd` holds the file.
    pub fn cfg_dir(cwd: String, config_exists: bool) -> (r: CfgSearch)
        ensures
            config_exists ==> (r matches CfgSearch::Found(d) && d@ == cwd@),
            !config_exists ==> match parent_of(cwd@) {
                Some(p) => (r matches CfgSearch::Up(d) && d@ == p),
                None => r matches CfgSearch::NotFound,
            },
    {
        if config_exists {
            return CfgSearch::Found(cwd);
        }
        match parent_path(cwd.as_str()) {
            Some(p) => CfgSearch::Up(p),
            None => CfgSearch::NotFound,
        }
    }

    /// Reads the mappings that TOML document `content` declares, the file
    /// lying in directory `dir`, which starts at the root, and `home` being
    /// the home directory. Each
    /// top-level key but `stoic` declares one: its `src` (by default the
    /// key itself) and a `target` that does not start with `~/` are taken
    /// relative to `dir`; `recursive` is false by default. A key without a
    /// target declares nothing. It fails only where the document does not
    /// parse, or where a target starts with `~/` and `home` is `None`.
    pub fn parse_config(dir: &str, home: &Option<String>, content: &str) -> (r: Result<
        ConfigFile,
        ConfigError,
    >)
        requires
            is_absolute(dir@),
        ensures
            toml_keys(content@) is None <==> r == Err::<ConfigFile, ConfigError>(ConfigError::Parse),
            r is Ok <==> (toml_keys(content@) matches Some(keys) && (home is None ==> forall|i: int|
                0 <= i < keys.len() ==> !needs_home(content@, #[trigger] keys[i]))),
            r == Err::<ConfigFile, ConfigError>(ConfigError::NoHome) ==> (home is None
                && (toml_keys(content@) matches Some(keys) && exists|i: int|
                0 <= i < keys.len() && needs_home(content@, #[trigger] keys[i]))),
            r matches Ok(c) ==> {
                let keys = toml_keys(content@)->0;
                let h = match home {
                    Some(h) => h@,
                    None => Seq::empty(),
                };
                &&& c.nodes_view() == declared_nodes(dir@, h, content@, keys)
                &&& home is None ==> forall|i: int|
                    0 <= i < keys.len() ==> !needs_home(content@, #[trigger] keys[i])
            },
    {
        let keys = match table_keys(content) {
            Some(k) => k,
            None => return Err(ConfigError::Parse),
        };
        let ghost kv = keys@.map_values(|s: String| s@);
        let ghost h = match home {
            Some(h) => h@,
            None => Seq::<char>::empty(),
        };
        let tool_key = String::from_str("stoic");
        let mut nodes: Vec<Node> = Vec::new();
        let mut i: usize = 0;
        while i < keys.len()
            invariant
                i <= keys.len(),
                kv == keys@.map_values(|s: String| s@),
                toml_keys(content@) == Some(kv),
                tool_key@ == "stoic"@,
                h == match home {
                    Some(h) => h@,
                    None => Seq::<char>::empty(),
                },
                is_absolute(dir@),
                nodes@.map_values(|n: Node| n@) == declared_nodes(
                    dir@,
                    h,
                    content@,
                    kv.take(i as int),
                ),
                home is None ==> forall|j: int|
                    0 <= j < i ==> !needs_home(content@, #[trigger] kv[j]),
            decreases keys.len() - i,
        {
            let key = &keys[i];
            proof {
                assert(kv.take(i + 1).drop_last() =~= kv.take(i as int));
                assert(kv.take(i + 1).last() == key@);
            }
            if *key == tool_key {
                i = i + 1;
                continue;
            }
            let tp = match table_str(content, key.as_str(), "target") {
                Some(tp) => tp,
                None => {
                    i = i + 1;
                    continue;
                },
            };
            let src_rel = match table_str(content, key.as_str(), "src") {
                Some(s) => s,
                None => key.clone(),
            };
            let src_joined = join_path(dir, src_rel.as_str());
            let src = match absolutize_from(src_joined.as_str(), dir) {
                Some(s) => s,
                None => unreached(),
            };
            let tl = tp.unicode_len();
            let target = if tl >= 2 && tp.get_char(0) == '~' && tp.get_char(1) == '/' {
                match home {
                    Some(hd) => join_path(hd.as_str(), tp.substring_char(2, tl)),
                    None => {
                        assert(needs_home(content@, kv[i as int]));
                        assert(home is None);
                        assert(toml_keys(content@) matches Some(keys) && keys == kv);
                        assert(exists|j: int|
                            0 <= j < kv.len() && needs_home(content@, #[trigger] kv[j]));
                        return Err(ConfigError::NoHome);
                    },
                }
            } else {
                let t_joined = join_path(dir, tp.as_str());
                match absolutize_from(t_joined.as_str(), dir) {
                    Some(t) => t,
                    None => unreached(),
                }
            };
            let recursive = match table_bool(content, key.as_str(), "recursive") {
                Some(b) => b,
                None => false,
            };
            let node = Node { src, target, recursive };
            nodes.push(node);
            i = i + 1;
        }
        proof {
            assert(kv.take(keys.len() as int) =~= kv);
        }
        Ok(ConfigFile { nodes })
    }

    /// Hands over the mappings whose links are to be made, in declaration
    /// order; the caller reconciles each in turn (see `Node::make`).
    pub fn make_links(self) -> (r: Vec<Node>)
        ensures
            r@ == self.nodes@,
    {
        self.nodes
    }
}

} // verus!
