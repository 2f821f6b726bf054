use stoic::config::{CfgSearch, ConfigError, ConfigFile};
use stoic::config_file::{Dotfiles, DotfilesError};
use stoic::node::Node;

#[test]
fn config_path_is_in_directory() {
    assert_eq!(ConfigFile::config_path("/home/u/dots"), "/home/u/dots/stoic.toml");
}

#[test]
fn search_stops_where_file_is() {
    match ConfigFile::cfg_dir("/home/u/dots".to_string(), true) {
        CfgSearch::Found(d) => assert_eq!(d, "/home/u/dots"),
        s => panic!("unexpected step {:?}", s),
    }
}

#[test]
fn search_goes_up_then_gives_up() {
    match ConfigFile::cfg_dir("/home/u/dots".to_string(), false) {
        CfgSearch::Up(d) => assert_eq!(d, "/home/u"),
        s => panic!("unexpected step {:?}", s),
    }
    assert!(matches!(ConfigFile::cfg_dir("/".to_string(), false), CfgSearch::NotFound));
}

#[test]
fn parses_declared_mappings() {
    let content = "[stoic]\nversion = 1\n\n[nvim]\ntarget = \"~/.config/nvim\"\nrecursive = true\n\n[shell]\nsrc = \"sh/../bash\"\ntarget = \"out/bashrc\"\n\n[loose]\nsrc = \"x\"\n";
    let home = Some("/home/u".to_string());
    let cfg = ConfigFile::parse_config("/dots", &home, content).unwrap();
    let nodes = cfg.make_links();
    assert_eq!(nodes.len(), 2);
    assert_eq!(nodes[0].src, "/dots/nvim");
    assert_eq!(nodes[0].target, "/home/u/.config/nvim");
    assert!(nodes[0].recursive);
    assert_eq!(nodes[1].src, "/dots/bash");
    assert_eq!(nodes[1].target, "/dots/out/bashrc");
    assert!(!nodes[1].recursive);
}

#[test]
fn unparsable_config_is_rejected() {
    let r = ConfigFile::parse_config("/dots", &None, "[unclosed");
    assert!(matches!(r, Err(ConfigError::Parse)));
}

#[test]
fn home_target_without_home_is_rejected() {
    let r = ConfigFile::parse_config("/dots", &None, "[nvim]\ntarget = \"~/.config/nvim\"\n");
    assert!(matches!(r, Err(ConfigError::NoHome)));
}

#[test]
fn dotfiles_keep_order() {
    let mut d = Dotfiles::default();
    d.push(Node { src: "/a".to_string(), target: "/b".to_string(), recursive: false });
    d.push(Node { src: "/c".to_string(), target: "/d".to_string(), recursive: true });
    let nodes = d.get_nodes();
    assert_eq!(nodes.len(), 2);
    assert_eq!(nodes[0].src, "/a");
    assert_eq!(nodes[1].target, "/d");
}

#[test]
fn dotfiles_parse_entries() {
    let content = "[vim]\nconfig_path = \"vim/vimrc\"\ntarget_path = \"/home/u/.vimrc\"\nis_recursive = true\n[git]\ntarget_path = \"/home/u/.gitconfig\"\n";
    let nodes = Dotfiles::parse_dotfiles("/dots", content).unwrap().get_nodes();
    assert_eq!(nodes.len(), 2);
    assert_eq!(nodes[0].src, "/dots/vim/vimrc");
    assert!(nodes[0].recursive);
    assert_eq!(nodes[1].src, "/dots/git");
    assert_eq!(nodes[1].target, "/home/u/.gitconfig");
    assert!(!nodes[1].recursive);
}

#[test]
fn dotfiles_missing_target_is_rejected() {
    let r = Dotfiles::parse_dotfiles("/dots", "[vim]\nconfig_path = \"v\"\n");
    match r {
        Err(DotfilesError::MissingTarget(k)) => assert_eq!(k, "vim"),
        _ => panic!("expected a missing target"),
    }
}

#[test]
fn mappings_keep_declaration_order() {
    let content = "[zsh]\ntarget = \"/home/u/.zshrc\"\n[bash]\ntarget = \"/home/u/.bashrc\"\n";
    let nodes = ConfigFile::parse_config("/dots", &None, content).unwrap().make_links();
    assert_eq!(nodes.len(), 2);
    assert_eq!(nodes[0].src, "/dots/zsh");
    assert_eq!(nodes[1].src, "/dots/bash");
}

#[test]
fn config_without_targets_is_empty() {
    let r = ConfigFile::parse_config("/dots", &None, "[stoic]\n[loose]\nsrc = \"x\"\n");
    assert!(r.unwrap().make_links().is_empty());
}
