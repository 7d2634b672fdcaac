use fds::config::{join_path, Config};

#[test]
fn default_path_under_home() {
    let (dir, file) = Config::default_config_path(Some("/home/u"));
    assert_eq!(dir, "/home/u/.config/fds");
    assert_eq!(file, "/home/u/.config/fds/config.toml");
}

#[test]
fn default_path_without_home() {
    let (dir, file) = Config::default_config_path(None);
    assert_eq!(dir, "./.config/fds");
    assert_eq!(file, "./.config/fds/config.toml");
}

#[test]
fn join_matches_pathbuf_push() {
    for (base, rel) in [("/a", "b"), ("/a/", "b"), ("", "b"), ("/a", "/b"), ("a", ""), ("./", ".config/fds")] {
        let mut p = std::path::PathBuf::from(base);
        p.push(rel);
        assert_eq!(join_path(base, rel), p.to_str().unwrap(), "{} + {}", base, rel);
    }
}

#[test]
fn config_holds_codes() {
    let c = Config { funds: vec!["000001".to_string()] };
    assert_eq!(c.funds.len(), 1);
}
