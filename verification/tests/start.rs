use boxlib::start::{
    data_volume_name, push_capability, start_args, start_step, CmdStartArgs, EngineKind,
    StartAction, StartContext, StartStage,
};

fn strings(v: &[&str]) -> Vec<String> {
    v.iter().map(|s| s.to_string()).collect()
}

fn cli() -> CmdStartArgs {
    CmdStartArgs {
        name: None,
        image: "fedora".to_string(),
        env: strings(&["X=1"]),
        capabilities: strings(&["!cap_net_broadcast", "cap_sys_ptrace"]),
        no_data_volume: false,
        no_network: true,
        dotfiles: Some("/home/u/dots".to_string()),
        engine_args: strings(&["--privileged"]),
    }
}

fn ctx(engine: EngineKind) -> StartContext {
    StartContext {
        engine,
        container_name: "cold-fox".to_string(),
        version: "0.3.1".to_string(),
        user: "u".to_string(),
        executable_path: "/usr/bin/box".to_string(),
        workspace: "/home/u/proj".to_string(),
        hostname: "host".to_string(),
        terminfo_dirs: strings(&["/etc/terminfo"]),
    }
}

fn base() -> Vec<String> {
    strings(&[
        "run", "-d", "--rm",
        "--security-opt", "label=disable",
        "--name", "cold-fox",
        "--user", "root",
        "--label=manager=box",
        "--label=box=box",
        "--env", "BOX=BOX",
        "--env", "BOX_VERSION=0.3.1",
        "--env", "BOX_USER=u",
        "--volume", "/usr/bin/box:/box:ro",
        "--volume", "/home/u/proj:/ws",
        "--hostname", "host",
    ])
}

#[test]
fn start_args_podman_full() {
    let mut expected = base();
    expected.extend(strings(&[
        "--userns=keep-id", "--ulimit", "host",
        "--env", "X=1",
        "--cap-drop", "cap_net_broadcast",
        "--cap-add", "cap_sys_ptrace",
        "--volume", "/etc/terminfo:/host/etc/terminfo:ro",
        "--env", "TERMINFO_DIRS=/host/etc/terminfo:/etc/terminfo",
        "--volume", "box-data:/data:Z",
        "--network=none",
        "--volume", "/home/u/dots:/etc/skel:ro",
        "--privileged",
        "--entrypoint", "/box", "fedora", "init",
    ]));
    assert_eq!(start_args(&cli(), &ctx(EngineKind::Podman)), expected);
}

#[test]
fn start_args_docker_minimal() {
    let c = CmdStartArgs {
        name: Some("x".to_string()),
        image: "alpine".to_string(),
        env: Vec::new(),
        capabilities: Vec::new(),
        no_data_volume: true,
        no_network: false,
        dotfiles: None,
        engine_args: Vec::new(),
    };
    let mut t = ctx(EngineKind::Docker);
    t.terminfo_dirs = Vec::new();
    let mut expected = base();
    expected.extend(strings(&[
        "--env", "TERMINFO_DIRS=",
        "--entrypoint", "/box", "alpine", "init",
    ]));
    assert_eq!(start_args(&c, &t), expected);
}

#[test]
fn capability_bang_drops() {
    let mut args = Vec::new();
    push_capability(&mut args, &"!cap_net_broadcast".to_string());
    assert_eq!(args, strings(&["--cap-drop", "cap_net_broadcast"]));
}

#[test]
fn capability_plain_adds() {
    let mut args = Vec::new();
    push_capability(&mut args, &"cap_net_admin".to_string());
    assert_eq!(args, strings(&["--cap-add", "cap_net_admin"]));
}

#[test]
fn capability_edge_cases() {
    let mut args = Vec::new();
    push_capability(&mut args, &"!".to_string());
    push_capability(&mut args, &"".to_string());
    push_capability(&mut args, &"a!b".to_string());
    assert_eq!(args, strings(&["--cap-drop", "", "--cap-add", "", "--cap-add", "a!b"]));
}

#[test]
fn data_volume_is_named() {
    assert_eq!(data_volume_name(), "box-data");
}

/// Drives the steps of a start with the given answers from the engine and
/// returns every action asked for.
fn drive(c: &CmdStartArgs, dry_run: bool, exists: bool, inspect_ok: bool, create_ok: bool) -> Vec<StartAction> {
    let mut actions = Vec::new();
    let mut stage = StartStage::Begin;
    let mut outcome = false;
    loop {
        let (next, action) = start_step(c, dry_run, stage, outcome);
        actions.push(action);
        if next == StartStage::Finished {
            return actions;
        }
        outcome = match next {
            StartStage::CheckingContainer => exists,
            StartStage::InspectingVolume => inspect_ok,
            StartStage::CreatingVolume => create_ok,
            _ => false,
        };
        stage = next;
    }
}

#[test]
fn start_refuses_existing_container() {
    assert_eq!(
        drive(&cli(), false, true, true, true),
        vec![StartAction::QueryContainer, StartAction::ContainerExists]
    );
}

#[test]
fn start_runs_after_volume_is_found() {
    assert_eq!(
        drive(&cli(), false, false, true, false),
        vec![StartAction::QueryContainer, StartAction::InspectVolume, StartAction::RunEngine]
    );
}

#[test]
fn start_creates_missing_volume() {
    assert_eq!(
        drive(&cli(), false, false, false, true),
        vec![
            StartAction::QueryContainer,
            StartAction::InspectVolume,
            StartAction::CreateVolume,
            StartAction::RunEngine
        ]
    );
}

#[test]
fn start_fails_when_volume_cannot_be_created() {
    assert_eq!(
        drive(&cli(), false, false, false, false),
        vec![
            StartAction::QueryContainer,
            StartAction::InspectVolume,
            StartAction::CreateVolume,
            StartAction::VolumeFailed
        ]
    );
}

#[test]
fn dry_run_skips_existence_check_but_prepares_volume() {
    assert_eq!(
        drive(&cli(), true, true, true, true),
        vec![StartAction::InspectVolume, StartAction::PrintCommand]
    );
}

#[test]
fn no_data_volume_goes_straight_to_launch() {
    let mut c = cli();
    c.no_data_volume = true;
    assert_eq!(
        drive(&c, false, false, false, false),
        vec![StartAction::QueryContainer, StartAction::RunEngine]
    );
    assert_eq!(drive(&c, true, true, false, false), vec![StartAction::PrintCommand]);
}

#[test]
fn finished_stays_finished() {
    assert_eq!(
        start_step(&cli(), false, StartStage::Finished, true),
        (StartStage::Finished, StartAction::Done)
    );
}

#[test]
fn container_name_given_or_generated() {
    let mut c = cli();
    assert_eq!(boxlib::start::container_name(&c, "gen-1".to_string()), "gen-1");
    c.name = Some("mine".to_string());
    assert_eq!(boxlib::start::container_name(&c, "gen-1".to_string()), "mine");
}
