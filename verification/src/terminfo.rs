//! Terminfo directories of the host, shared with the container so that no
//! terminfo needs installing inside it.

use vstd::prelude::*;
use vstd::string::*;
use crate::text::{join, split_at_char, free_of, lemma_split_join};

verus! {

/// The directories in which hosts keep terminfo; Debian differs from the rest.
pub open spec fn terminfo_search_paths_spec() -> Seq<Seq<char>> {
    seq!["/usr/share/terminfo"@, "/usr/lib/terminfo"@, "/etc/terminfo"@]
}

/// Where a host terminfo directory is mounted in the container: under `/host`.
pub open spec fn host_path(dir: Seq<char>) -> Seq<char> {
    "/host"@ + dir
}

/// `--volume DIR:/hostDIR:ro` for each directory, in order.
pub open spec fn terminfo_mount_args(dirs: Seq<Seq<char>>) -> Seq<Seq<char>>
    decreases dirs.len(),
{
    if dirs.len() == 0 {
        Seq::empty()
    } else {
        terminfo_mount_args(dirs.drop_last()) + seq![
            "--volume"@,
            dirs.last() + ":/host"@ + dirs.last() + ":ro"@,
        ]
    }
}

/// The search path handed to the container: the host copies first, as they
/// are preferred, then the container's own directories as a fallback.
pub open spec fn terminfo_dirs_value(dirs: Seq<Seq<char>>) -> Seq<char> {
    join(dirs.map_values(|d: Seq<char>| host_path(d)) + dirs, ":"@)
}

/// Everything `find_terminfo` adds to an engine command line.
pub open spec fn terminfo_args(dirs: Seq<Seq<char>>) -> Seq<Seq<char>> {
    terminfo_mount_args(dirs) + seq!["--env"@, "TERMINFO_DIRS="@ + terminfo_dirs_value(dirs)]
}

/// The candidate terminfo directories, in order of preference.
pub fn terminfo_search_paths() -> (paths: Vec<String>)
    ensures
        paths.deep_view() == terminfo_search_paths_spec(),
{
    let mut paths: Vec<String> = Vec::new();
    paths.push(String::from_str("/usr/share/terminfo"));
    paths.push(String::from_str("/usr/lib/terminfo"));
    paths.push(String::from_str("/etc/terminfo"));
    assert(paths.deep_view() =~= terminfo_search_paths_spec());
    paths
}

/// Adds to `args` the mounts of the terminfo directories `existing` (those of
/// the search paths that exist on the host, in order) and the `TERMINFO_DIRS`
/// variable that lets the container find them all.
pub fn find_terminfo(args: &mut Vec<String>, existing: &Vec<String>)
    ensures
        final(args).deep_view() == old(args).deep_view() + terminfo_args(existing.deep_view()),
{
    let ghost start = args.deep_view();
    let ghost dirs = existing.deep_view();
    let n: usize = existing.len();
    let mut i: usize = 0;
    while i < n
        invariant
            0 <= i <= n,
            n == existing.len(),
            dirs == existing.deep_view(),
            args.deep_view() == start + terminfo_mount_args(dirs.take(i as int)),
        decreases n - i,
    {
        let dir = existing[i].as_str();
        let mut mount = String::from_str(dir);
        mount.append(":/host");
        mount.append(dir);
        mount.append(":ro");
        let ghost before = args.deep_view();
        args.push(String::from_str("--volume"));
        args.push(mount);
        proof {
            assert(dirs.take(i + 1).drop_last() =~= dirs.take(i as int));
            assert(dirs.take(i + 1).last() == dirs[i as int]);
            assert(args.deep_view() =~= before + seq![
                "--volume"@,
                dirs[i as int] + ":/host"@ + dirs[i as int] + ":ro"@,
            ]);
            assert(args.deep_view() =~= start + terminfo_mount_args(dirs.take(i + 1)));
        }
        i = i + 1;
    }
    proof {
        assert(dirs.take(n as int) =~= dirs);
    }

    // the search path: host copies first, then the container's own
    let ghost parts = dirs.map_values(|d: Seq<char>| host_path(d)) + dirs;
    let mut value = String::from_str("TERMINFO_DIRS=");
    let ghost prefix = value@;
    let mut i: usize = 0;
    while i < n
        invariant
            n == existing.len(),
            0 <= i <= n,
            dirs == existing.deep_view(),
            parts == dirs.map_values(|d: Seq<char>| host_path(d)) + dirs,
            value@ == prefix + join(parts.take(i as int), ":"@),
        decreases n - i,
    {
        if i > 0 {
            value.append(":");
        }
        value.append("/host");
        value.append(existing[i].as_str());
        proof {
            assert(parts.take(i + 1).drop_last() =~= parts.take(i as int));
            assert(parts[i as int] == host_path(dirs[i as int]));
            if i == 0 {
                assert(join(parts.take(0), ":"@) =~= Seq::<char>::empty());
            }
            assert(value@ =~= prefix + join(parts.take(i + 1), ":"@));
        }
        i = i + 1;
    }
    let mut i: usize = 0;
    while i < n
        invariant
            n == existing.len(),
            0 <= i <= n,
            dirs == existing.deep_view(),
            parts == dirs.map_values(|d: Seq<char>| host_path(d)) + dirs,
            value@ == prefix + join(parts.take(n + i), ":"@),
        decreases n - i,
    {
        if n > 0 || i > 0 {
            value.append(":");
        }
        value.append(existing[i].as_str());
        proof {
            assert(parts.take(n + i + 1).drop_last() =~= parts.take(n + i));
            assert(parts[n + i] == dirs[i as int]);
            if n + i == 0 {
                assert(join(parts.take(0), ":"@) =~= Seq::<char>::empty());
            }
            assert(value@ =~= prefix + join(parts.take(n + i + 1), ":"@));
        }
        i = i + 1;
    }
    proof {
        assert(parts.take(n + n) =~= parts);
    }
    let ghost before = args.deep_view();
    args.push(String::from_str("--env"));
    args.push(value);
    proof {
        assert(parts =~= dirs.map_values(|d: Seq<char>| host_path(d)) + dirs);
        assert(value@ == "TERMINFO_DIRS="@ + terminfo_dirs_value(dirs));
        assert(args.deep_view() =~= before + seq!["--env"@, value@]);
        assert(args.deep_view() =~= start + terminfo_args(dirs));
    }
}


/// The search path lists every directory twice, host copy first: split at
/// `:`, it gives the host copies of the directories, in order, then the
/// directories themselves, each piece non-empty, so the value neither starts
/// nor ends with `:`; with no directory it is empty. This holds for
/// directories that are named (non-empty) and hold no `:`, as the search
/// paths do.
pub proof fn lemma_terminfo_dirs_value_splits(dirs: Seq<Seq<char>>)
    requires
        forall|i: int| 0 <= i < dirs.len() ==> (#[trigger] dirs[i]).len() > 0 && free_of(dirs[i], ':'),
    ensures
        dirs.len() == 0 ==> terminfo_dirs_value(dirs) == Seq::<char>::empty(),
        dirs.len() > 0 ==> split_at_char(terminfo_dirs_value(dirs), ':')
            == dirs.map_values(|d: Seq<char>| host_path(d)) + dirs,
        dirs.len() > 0 ==> {
            let parts = split_at_char(terminfo_dirs_value(dirs), ':');
            &&& parts.len() == 2 * dirs.len()
            &&& forall|i: int| 0 <= i < parts.len() ==> (#[trigger] parts[i]).len() > 0
            &&& forall|i: int| 0 <= i < dirs.len() ==> parts[i] == host_path(dirs[i])
            &&& forall|i: int| 0 <= i < dirs.len() ==> parts[dirs.len() + i] == dirs[i]
        },
{
    reveal_strlit(":");
    reveal_strlit("/host");
    let parts = dirs.map_values(|d: Seq<char>| host_path(d)) + dirs;
    assert(":"@ =~= seq![':']);
    if dirs.len() == 0 {
        assert(parts =~= Seq::<Seq<char>>::empty());
    } else {
        assert forall|i: int| 0 <= i < parts.len() implies free_of(#[trigger] parts[i], ':') && parts[i].len() > 0 by {
            if i < dirs.len() {
                assert(parts[i] == "/host"@ + dirs[i]);
                assert forall|k: int| 0 <= k < parts[i].len() implies parts[i][k] != ':' by {
                    if k >= 5 {
                        assert(parts[i][k] == dirs[i][k - 5]);
                    }
                }
            } else {
                assert(parts[i] == dirs[i - dirs.len()]);
            }
        }
        lemma_split_join(parts, ':');
    }
}


/// Every directory is mounted, read-only, under `/host`: two entries per
/// directory, `--volume` and then `DIR:/hostDIR:ro`, in the directories'
/// order.
pub proof fn lemma_terminfo_mounts_every_dir(dirs: Seq<Seq<char>>)
    ensures
        terminfo_mount_args(dirs).len() == 2 * dirs.len(),
        forall|i: int| 0 <= i < dirs.len() ==> #[trigger] terminfo_mount_args(dirs)[2 * i] == "--volume"@
            && terminfo_mount_args(dirs)[2 * i + 1] == dirs[i] + ":/host"@ + dirs[i] + ":ro"@,
    decreases dirs.len(),
{
    if dirs.len() > 0 {
        lemma_terminfo_mounts_every_dir(dirs.drop_last());
        let prev = terminfo_mount_args(dirs.drop_last());
        assert forall|i: int| 0 <= i < dirs.len() implies #[trigger] terminfo_mount_args(dirs)[2 * i] == "--volume"@
            && terminfo_mount_args(dirs)[2 * i + 1] == dirs[i] + ":/host"@ + dirs[i] + ":ro"@ by {
            if i < dirs.len() - 1 {
                assert(terminfo_mount_args(dirs)[2 * i] == prev[2 * i]);
                assert(terminfo_mount_args(dirs)[2 * i + 1] == prev[2 * i + 1]);
                assert(dirs.drop_last()[i] == dirs[i]);
            }
        }
    }
}

/// What `find_terminfo` adds: the mounts, then `--env` and the search path
/// as the last two entries.
pub proof fn lemma_terminfo_args_shape(dirs: Seq<Seq<char>>)
    ensures
        terminfo_args(dirs).len() == 2 * dirs.len() + 2,
        terminfo_args(dirs).subrange(0, 2 * dirs.len() as int) == terminfo_mount_args(dirs),
        terminfo_args(dirs)[2 * dirs.len() as int] == "--env"@,
        terminfo_args(dirs)[2 * dirs.len() as int + 1] == "TERMINFO_DIRS="@ + terminfo_dirs_value(dirs),
{
    lemma_terminfo_mounts_every_dir(dirs);
    assert(terminfo_args(dirs).subrange(0, 2 * dirs.len() as int) =~= terminfo_mount_args(dirs));
}

} // verus!
