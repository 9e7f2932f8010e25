use boxlib::terminfo::{find_terminfo, terminfo_search_paths};

fn strings(v: &[&str]) -> Vec<String> {
    v.iter().map(|s| s.to_string()).collect()
}

#[test]
fn search_paths_in_order_of_preference() {
    assert_eq!(
        terminfo_search_paths(),
        strings(&["/usr/share/terminfo", "/usr/lib/terminfo", "/etc/terminfo"])
    );
}

#[test]
fn terminfo_two_dirs_host_first() {
    let mut args = strings(&["run"]);
    find_terminfo(&mut args, &strings(&["/usr/share/terminfo", "/etc/terminfo"]));
    assert_eq!(
        args,
        strings(&[
            "run",
            "--volume",
            "/usr/share/terminfo:/host/usr/share/terminfo:ro",
            "--volume",
            "/etc/terminfo:/host/etc/terminfo:ro",
            "--env",
            "TERMINFO_DIRS=/host/usr/share/terminfo:/host/etc/terminfo:/usr/share/terminfo:/etc/terminfo",
        ])
    );
}

#[test]
fn terminfo_no_dirs_gives_empty_search_path() {
    let mut args = Vec::new();
    find_terminfo(&mut args, &Vec::new());
    assert_eq!(args, strings(&["--env", "TERMINFO_DIRS="]));
}

#[test]
fn terminfo_single_dir() {
    let mut args = Vec::new();
    find_terminfo(&mut args, &strings(&["/etc/terminfo"]));
    assert_eq!(
        args,
        strings(&[
            "--volume",
            "/etc/terminfo:/host/etc/terminfo:ro",
            "--env",
            "TERMINFO_DIRS=/host/etc/terminfo:/etc/terminfo",
        ])
    );
}

#[test]
fn terminfo_value_splits_into_host_then_plain() {
    let dirs = strings(&["/usr/share/terminfo", "/usr/lib/terminfo", "/etc/terminfo"]);
    let mut args = Vec::new();
    find_terminfo(&mut args, &dirs);
    assert_eq!(args[args.len() - 2], "--env");
    let value = args.last().unwrap().strip_prefix("TERMINFO_DIRS=").unwrap();
    let parts: Vec<&str> = value.split(':').collect();
    assert_eq!(parts.len(), 6);
    for (i, d) in dirs.iter().enumerate() {
        assert_eq!(parts[i], format!("/host{}", d));
        assert_eq!(parts[dirs.len() + i], d.as_str());
    }
}
