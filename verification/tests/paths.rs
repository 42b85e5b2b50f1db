use std::path::PathBuf;

use portus::paths::{
    config_dir, config_dir_in, config_file_in, pid_path, registry_path, socket_path, PathError,
    Platform,
};

#[test]
fn files_below_the_home_directory() {
    let home = directories::BaseDirs::new().map(|dirs| dirs.home_dir().to_path_buf());
    let Some(home) = home else {
        assert_eq!(config_dir().unwrap_err(), PathError::NoHome);
        return;
    };
    for (path, names) in [
        (config_dir(), vec![".config", "portus"]),
        (registry_path(), vec![".config", "portus", "registry.toml"]),
        (socket_path(Platform::Unix), vec![".config", "portus", "portus.sock"]),
        (socket_path(Platform::Windows), vec![".config", "portus", "portus.pipe"]),
        (pid_path(), vec![".config", "portus", "portus.pid"]),
    ] {
        let path = path.unwrap();
        assert_eq!(path.home, home);
        assert_eq!(path.names, names);
    }
}

#[test]
fn no_path_without_a_home_directory() {
    assert_eq!(config_dir_in(None).unwrap_err(), PathError::NoHome);
    assert_eq!(config_file_in(None, "x").unwrap_err().message(), "cannot determine home directory");
    let path = config_file_in(Some(PathBuf::from("/home/u")), "x").unwrap();
    assert_eq!(path.home, PathBuf::from("/home/u"));
    assert_eq!(path.names, [".config", "portus", "x"]);
}
