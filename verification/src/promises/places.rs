//! Where the files are.
use std::path::PathBuf;
use vstd::prelude::*;
use crate::paths;
use crate::paths::{HomePath, PathError, Platform};
use crate::text;

verus! {

/// Whether the names lead to the configuration directory, and on from there by
/// the given names.
pub open spec fn is_below_config(names: Seq<String>, more: Seq<Seq<char>>) -> bool {
    &&& names.len() == 2 + more.len()
    &&& names[0]@ == ".config"@
    &&& names[1]@ == "portus"@
    &&& forall|i: int| 0 <= i < more.len() ==> names[2 + i]@ == #[trigger] more[i]
}

proof fn lemma_below(names: Seq<String>, more: Seq<Seq<char>>)
    requires
        text::strings(names) == seq![".config"@, "portus"@] + more,
    ensures
        is_below_config(names, more),
{
    let all = text::strings(names);
    assert(all.len() == names.len());
    assert(all[0] == names[0]@);
    assert(all[1] == names[1]@);
    assert forall|i: int| 0 <= i < more.len() implies names[2 + i]@ == #[trigger] more[i] by {
        assert(all[2 + i] == names[2 + i]@);
    }
}

/// A file of Portus is in `.config/portus` below the home directory, under its
/// own name; without a home directory there is no place for it.
pub proof fn files_are_below_the_home_directory(
    home: Option<PathBuf>,
    name: &str,
    dir: Result<HomePath, PathError>,
    file: Result<HomePath, PathError>,
)
    requires
        call_ensures(paths::config_dir_in, (home,), dir),
        call_ensures(paths::config_file_in, (home, name), file),
    ensures
        match home {
            None => dir is Err && file is Err,
            Some(home) => {
                &&& dir matches Ok(path) && path.home == home && is_below_config(
                    path.names@,
                    seq![],
                )
                &&& file matches Ok(path) && path.home == home && is_below_config(
                    path.names@,
                    seq![name@],
                )
            },
        },
{
    if home is Some {
        assert(paths::config_names() =~= seq![".config"@, "portus"@] + Seq::<Seq<char>>::empty());
        assert(paths::config_names().push(name@) =~= seq![".config"@, "portus"@] + seq![name@]);
        lemma_below(dir->Ok_0.names@, seq![]);
        lemma_below(file->Ok_0.names@, seq![name@]);
    }
}

/// The registry, the daemon's number and its socket each have a file of their
/// own in the configuration directory.
pub proof fn files_have_their_names(
    platform: Platform,
    dir: Result<HomePath, PathError>,
    registry: Result<HomePath, PathError>,
    pid: Result<HomePath, PathError>,
    socket: Result<HomePath, PathError>,
)
    requires
        call_ensures(paths::config_dir, (), dir),
        call_ensures(paths::registry_path, (), registry),
        call_ensures(paths::pid_path, (), pid),
        call_ensures(paths::socket_path, (platform,), socket),
    ensures
        dir matches Ok(path) ==> is_below_config(path.names@, seq![]),
        registry matches Ok(path) ==> is_below_config(path.names@, seq!["registry.toml"@]),
        pid matches Ok(path) ==> is_below_config(path.names@, seq!["portus.pid"@]),
        socket matches Ok(path) ==> is_below_config(
            path.names@,
            seq![
                if platform is Unix {
                    "portus.sock"@
                } else {
                    "portus.pipe"@
                },
            ],
        ),
{
    let base = seq![".config"@, "portus"@];
    let name = if platform is Unix {
        "portus.sock"@
    } else {
        "portus.pipe"@
    };
    assert(paths::config_names() =~= base + Seq::<Seq<char>>::empty());
    assert(paths::config_names().push("registry.toml"@) =~= base + seq!["registry.toml"@]);
    assert(paths::config_names().push("portus.pid"@) =~= base + seq!["portus.pid"@]);
    assert(paths::config_names().push(name) =~= base + seq![name]);
    if let Ok(path) = dir {
        lemma_below(path.names@, seq![]);
    }
    if let Ok(path) = registry {
        lemma_below(path.names@, seq!["registry.toml"@]);
    }
    if let Ok(path) = pid {
        lemma_below(path.names@, seq!["portus.pid"@]);
    }
    if let Ok(path) = socket {
        lemma_below(path.names@, seq![name]);
    }
}

} // verus!
