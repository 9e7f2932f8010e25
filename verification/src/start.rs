//! Starting a container: the engine command line, and the steps taken
//! around it (refusing an existing container, preparing the data volume).

use vstd::prelude::*;
use vstd::string::*;
use crate::text::{flag_each, push_flag_each};
use crate::terminfo::{terminfo_args, find_terminfo};

verus! {

/// The kind of container engine that runs the commands.
#[derive(PartialEq, Eq, Structural, Clone, Copy, Debug)]
pub enum EngineKind {
    Podman,
    Docker,
}

/// What the user asked for when starting a container.
pub struct CmdStartArgs {
    /// Name for the container; one is generated when absent
    pub name: Option<String>,
    /// Image the container runs
    pub image: String,
    /// Environment variables, each `NAME=VALUE`, passed on verbatim
    pub env: Vec<String>,
    /// Capabilities to add; one written `!cap` is dropped instead
    pub capabilities: Vec<String>,
    /// Do not mount the shared data volume
    pub no_data_volume: bool,
    /// Start the container without network
    pub no_network: bool,
    /// Dotfiles directory mounted as `/etc/skel`
    pub dotfiles: Option<String>,
    /// Arguments passed to the engine verbatim
    pub engine_args: Vec<String>,
}

/// What the host tells about itself when a container is started.
pub struct StartContext {
    /// Engine kind in use
    pub engine: EngineKind,
    /// Name of the container to start, as given or generated
    pub container_name: String,
    /// Version of this program
    pub version: String,
    /// User running this program
    pub user: String,
    /// Path of this program's executable, mounted as the container's entrypoint
    pub executable_path: String,
    /// Current working directory, mounted as `/ws`
    pub workspace: String,
    /// Host name given to the container
    pub hostname: String,
    /// Those of the terminfo search paths that exist on the host, in order
    pub terminfo_dirs: Vec<String>,
}

/// The name of the container to start: the one the user gave, otherwise
/// `generated`.
pub open spec fn container_name_spec(name: Option<String>, generated: Seq<char>) -> Seq<char> {
    match name {
        Some(n) => n@,
        None => generated,
    }
}

/// The name of the container to start: the one asked for in `cli`, otherwise
/// the `generated` one.
pub fn container_name(cli: &CmdStartArgs, generated: String) -> (name: String)
    ensures
        name@ == container_name_spec(cli.name, generated@),
{
    match &cli.name {
        Some(n) => n.clone(),
        None => generated,
    }
}

/// The container gets the name the user asked for when there is one, and
/// the generated name only when the user asked for none.
pub proof fn lemma_container_name(name: Option<String>, generated: Seq<char>)
    ensures
        name matches Some(n) ==> container_name_spec(name, generated) == n@,
        name is None ==> container_name_spec(name, generated) == generated,
{
}

/// Name of the engine volume shared by all containers for persistent data.
pub open spec fn data_volume_name_spec() -> Seq<char> {
    "box-data"@
}

/// Name of the engine volume shared by all containers for persistent data.
/// The name `box-data` is fixed here: nothing else in the program names the
/// volume, so engines only ever see this one.
pub fn data_volume_name() -> (name: String)
    ensures
        name@ == data_volume_name_spec(),
{
    String::from_str("box-data")
}

/// The arguments every container starts with.
pub open spec fn base_args(ctx: StartContext) -> Seq<Seq<char>> {
    seq![
        "run"@, "-d"@, "--rm"@,
        "--security-opt"@, "label=disable"@,
        "--name"@, ctx.container_name@,
        "--user"@, "root"@,
        "--label=manager=box"@,
        "--label=box=box"@,
        "--env"@, "BOX=BOX"@,
        "--env"@, "BOX_VERSION="@ + ctx.version@,
        "--env"@, "BOX_USER="@ + ctx.user@,
        "--volume"@, ctx.executable_path@ + ":/box:ro"@,
        "--volume"@, ctx.workspace@ + ":/ws"@,
        "--hostname"@, ctx.hostname@,
    ]
}

/// Arguments that only one kind of engine gets.
pub open spec fn engine_specific_args(kind: EngineKind) -> Seq<Seq<char>> {
    match kind {
        EngineKind::Podman => seq!["--userns=keep-id"@, "--ulimit"@, "host"@],
        EngineKind::Docker => Seq::empty(),
    }
}

/// `--cap-drop CAP` for a capability written `!CAP`, `--cap-add CAP` otherwise.
pub open spec fn capability_args(cap: Seq<char>) -> Seq<Seq<char>> {
    if cap.len() > 0 && cap[0] == '!' {
        seq!["--cap-drop"@, cap.subrange(1, cap.len() as int)]
    } else {
        seq!["--cap-add"@, cap]
    }
}

/// `capability_args` of each capability, in order.
pub open spec fn capabilities_args(caps: Seq<Seq<char>>) -> Seq<Seq<char>>
    decreases caps.len(),
{
    if caps.len() == 0 {
        Seq::empty()
    } else {
        capabilities_args(caps.drop_last()) + capability_args(caps.last())
    }
}

/// The mount of the shared data volume, unless the user declined it.
pub open spec fn data_volume_args(no_data_volume: bool) -> Seq<Seq<char>> {
    if no_data_volume {
        Seq::empty()
    } else {
        seq!["--volume"@, data_volume_name_spec() + ":/data:Z"@]
    }
}

/// `--network=none` when the user asked for no network.
pub open spec fn network_args(no_network: bool) -> Seq<Seq<char>> {
    if no_network {
        seq!["--network=none"@]
    } else {
        Seq::empty()
    }
}

/// The mount of the dotfiles directory as `/etc/skel`, when one is given.
pub open spec fn dotfiles_args(dotfiles: Option<String>) -> Seq<Seq<char>> {
    match dotfiles {
        Some(d) => seq!["--volume"@, d@ + ":/etc/skel:ro"@],
        None => Seq::empty(),
    }
}

/// The complete engine command line that starts a container.
pub open spec fn start_args_spec(cli: CmdStartArgs, ctx: StartContext) -> Seq<Seq<char>> {
    base_args(ctx)
        + engine_specific_args(ctx.engine)
        + flag_each("--env"@, cli.env.deep_view())
        + capabilities_args(cli.capabilities.deep_view())
        + terminfo_args(ctx.terminfo_dirs.deep_view())
        + data_volume_args(cli.no_data_volume)
        + network_args(cli.no_network)
        + dotfiles_args(cli.dotfiles)
        + cli.engine_args.deep_view()
        + seq!["--entrypoint"@, "/box"@, cli.image@, "init"@]
}

fn push_str(args: &mut Vec<String>, s: &str)
    ensures
        final(args).deep_view() == old(args).deep_view().push(s@),
{
    args.push(String::from_str(s));
    assert(args.deep_view() =~= old(args).deep_view().push(s@));
}

fn push_string(args: &mut Vec<String>, s: String)
    ensures
        final(args).deep_view() == old(args).deep_view().push(s@),
{
    let ghost v = s@;
    args.push(s);
    assert(args.deep_view() =~= old(args).deep_view().push(v));
}

fn joined(a: &str, b: &str) -> (s: String)
    ensures
        s@ == a@ + b@,
{
    String::from_str(a).concat(b)
}

fn push_base_args(args: &mut Vec<String>, ctx: &StartContext)
    ensures
        final(args).deep_view() == old(args).deep_view() + base_args(*ctx),
{
    push_str(args, "run");
    push_str(args, "-d");
    push_str(args, "--rm");
    push_str(args, "--security-opt");
    push_str(args, "label=disable");
    push_str(args, "--name");
    push_string(args, ctx.container_name.clone());
    push_str(args, "--user");
    push_str(args, "root");
    push_str(args, "--label=manager=box");
    push_str(args, "--label=box=box");
    push_str(args, "--env");
    push_str(args, "BOX=BOX");
    push_str(args, "--env");
    push_string(args, joined("BOX_VERSION=", ctx.version.as_str()));
    push_str(args, "--env");
    push_string(args, joined("BOX_USER=", ctx.user.as_str()));
    push_str(args, "--volume");
    push_string(args, joined(ctx.executable_path.as_str(), ":/box:ro"));
    push_str(args, "--volume");
    push_string(args, joined(ctx.workspace.as_str(), ":/ws"));
    push_str(args, "--hostname");
    push_string(args, ctx.hostname.clone());
    assert(args.deep_view() =~= old(args).deep_view() + base_args(*ctx));
}

/// Adds to `args` the flag that adds or, for one written `!CAP`, drops the
/// capability `cap`.
pub fn push_capability(args: &mut Vec<String>, cap: &String)
    ensures
        final(args).deep_view() == old(args).deep_view() + capability_args(cap@),
{
    let s = cap.as_str();
    let len: usize = s.unicode_len();
    if len > 0 && s.get_char(0) == '!' {
        push_str(args, "--cap-drop");
        push_str(args, s.substring_char(1, len));
    } else {
        push_str(args, "--cap-add");
        push_string(args, cap.clone());
    }
    assert(args.deep_view() =~= old(args).deep_view() + capability_args(cap@));
}

fn push_capabilities(args: &mut Vec<String>, caps: &Vec<String>)
    ensures
        final(args).deep_view() == old(args).deep_view() + capabilities_args(caps.deep_view()),
{
    let ghost start = args.deep_view();
    let ghost all = caps.deep_view();
    let mut i: usize = 0;
    while i < caps.len()
        invariant
            0 <= i <= caps.len(),
            all == caps.deep_view(),
            args.deep_view() == start + capabilities_args(all.take(i as int)),
        decreases caps.len() - i,
    {
        let ghost before = args.deep_view();
        push_capability(args, &caps[i]);
        proof {
            assert(all.take(i + 1).drop_last() =~= all.take(i as int));
            assert(args.deep_view() =~= start + capabilities_args(all.take(i + 1)));
        }
        i = i + 1;
    }
    assert(all.take(caps.len() as int) =~= all);
}

fn push_all(args: &mut Vec<String>, items: &Vec<String>)
    ensures
        final(args).deep_view() == old(args).deep_view() + items.deep_view(),
{
    let ghost start = args.deep_view();
    let mut i: usize = 0;
    while i < items.len()
        invariant
            0 <= i <= items.len(),
            args.deep_view() == start + items.deep_view().take(i as int),
        decreases items.len() - i,
    {
        push_string(args, items[i].clone());
        assert(args.deep_view() =~= start + items.deep_view().take(i + 1));
        i = i + 1;
    }
    assert(items.deep_view().take(items.len() as int) =~= items.deep_view());
}

/// The engine command line that starts the container described by `cli` on
/// the host described by `ctx`.
pub fn start_args(cli: &CmdStartArgs, ctx: &StartContext) -> (args: Vec<String>)
    ensures
        args.deep_view() == start_args_spec(*cli, *ctx),
{
    let mut args: Vec<String> = Vec::new();
    push_base_args(&mut args, ctx);
    let ghost a1 = args.deep_view();
    match ctx.engine {
        EngineKind::Podman => {
            push_str(&mut args, "--userns=keep-id");
            // the default ulimit is low
            push_str(&mut args, "--ulimit");
            push_str(&mut args, "host");
        },
        EngineKind::Docker => {},
    }
    assert(args.deep_view() =~= a1 + engine_specific_args(ctx.engine));
    push_flag_each(&mut args, "--env", &cli.env);
    push_capabilities(&mut args, &cli.capabilities);
    find_terminfo(&mut args, &ctx.terminfo_dirs);
    let ghost a2 = args.deep_view();
    if !cli.no_data_volume {
        push_str(&mut args, "--volume");
        let volume = data_volume_name();
        push_string(&mut args, joined(volume.as_str(), ":/data:Z"));
    }
    assert(args.deep_view() =~= a2 + data_volume_args(cli.no_data_volume));
    let ghost a3 = args.deep_view();
    if cli.no_network {
        push_str(&mut args, "--network=none");
    }
    assert(args.deep_view() =~= a3 + network_args(cli.no_network));
    let ghost a4 = args.deep_view();
    match &cli.dotfiles {
        Some(d) => {
            push_str(&mut args, "--volume");
            push_string(&mut args, joined(d.as_str(), ":/etc/skel:ro"));
        },
        None => {},
    }
    assert(args.deep_view() =~= a4 + dotfiles_args(cli.dotfiles));
    push_all(&mut args, &cli.engine_args);
    let ghost a5 = args.deep_view();
    push_str(&mut args, "--entrypoint");
    push_str(&mut args, "/box");
    push_string(&mut args, cli.image.clone());
    push_str(&mut args, "init");
    assert(args.deep_view() =~= a5 + seq!["--entrypoint"@, "/box"@, cli.image@, "init"@]);
    assert(args.deep_view() =~= start_args_spec(*cli, *ctx));
    args
}


/// The two entries at `2 * i` of `args` are those of the capability `cap`:
/// `--cap-drop` and the capability without its `!` when it is written
/// `!CAP`, `--cap-add` and the capability as written otherwise.
pub open spec fn capability_pair_at(args: Seq<Seq<char>>, i: int, cap: Seq<char>) -> bool {
    if cap.len() > 0 && cap[0] == '!' {
        args[2 * i] == "--cap-drop"@ && args[2 * i + 1] == cap.subrange(1, cap.len() as int)
    } else {
        args[2 * i] == "--cap-add"@ && args[2 * i + 1] == cap
    }
}

/// Each capability gives two entries, in the capabilities' order: the flag
/// that drops it when it is written `!CAP` (without the `!`), the flag that
/// adds it otherwise.
pub proof fn lemma_capabilities_args_pairs(caps: Seq<Seq<char>>)
    ensures
        capabilities_args(caps).len() == 2 * caps.len(),
        forall|i: int| 0 <= i < caps.len() ==> #[trigger] capability_pair_at(capabilities_args(caps), i, caps[i]),
    decreases caps.len(),
{
    if caps.len() > 0 {
        lemma_capabilities_args_pairs(caps.drop_last());
        let prev = capabilities_args(caps.drop_last());
        let a = capabilities_args(caps);
        assert(a == prev + capability_args(caps.last()));
        assert forall|i: int| 0 <= i < caps.len() implies #[trigger] capability_pair_at(a, i, caps[i]) by {
            if i < caps.len() - 1 {
                assert(capability_pair_at(prev, i, caps.drop_last()[i]));
                assert(a[2 * i] == prev[2 * i]);
                assert(a[2 * i + 1] == prev[2 * i + 1]);
                assert(caps.drop_last()[i] == caps[i]);
            } else {
                assert(caps.last() == caps[i]);
                assert(a[2 * i] == capability_args(caps[i])[0]);
                assert(a[2 * i + 1] == capability_args(caps[i])[1]);
            }
        }
    }
}

/// The command line starts with the settings every container gets, and ends
/// with the user's engine arguments, verbatim, followed by the entrypoint,
/// the image and the `init` command: the program's own settings never come
/// after the user's.
pub proof fn lemma_start_args_layout(cli: CmdStartArgs, ctx: StartContext)
    ensures
        ({
            let a = start_args_spec(cli, ctx);
            let e = cli.engine_args.deep_view();
            let n: int = a.len() as int;
            &&& n >= base_args(ctx).len() + e.len() + 4
            &&& a.subrange(0, base_args(ctx).len() as int) == base_args(ctx)
            &&& a.subrange(n - 4 - e.len(), n - 4) == e
            &&& a.subrange(n - 4, n) == seq!["--entrypoint"@, "/box"@, cli.image@, "init"@]
        }),
{
    let a = start_args_spec(cli, ctx);
    let e = cli.engine_args.deep_view();
    let tail = seq!["--entrypoint"@, "/box"@, cli.image@, "init"@];
    let middle = engine_specific_args(ctx.engine)
        + flag_each("--env"@, cli.env.deep_view())
        + capabilities_args(cli.capabilities.deep_view())
        + terminfo_args(ctx.terminfo_dirs.deep_view())
        + data_volume_args(cli.no_data_volume)
        + network_args(cli.no_network)
        + dotfiles_args(cli.dotfiles);
    assert(a =~= base_args(ctx) + middle + e + tail);
    let n: int = a.len() as int;
    assert(a.subrange(0, base_args(ctx).len() as int) =~= base_args(ctx));
    assert(a.subrange(n - 4 - e.len(), n - 4) =~= e);
    assert(a.subrange(n - 4, n) =~= tail);
}

/// Where starting a container stands: which outside result it waits for.
#[derive(PartialEq, Eq, Structural, Clone, Copy, Debug)]
pub enum StartStage {
    /// Nothing done yet
    Begin,
    /// Waiting to learn whether a container of that name exists
    CheckingContainer,
    /// Waiting to learn whether the data volume can be inspected
    InspectingVolume,
    /// Waiting to learn whether the data volume was created
    CreatingVolume,
    /// Nothing more to do
    Finished,
}

/// What the caller does next; the one that ends a start is marked so.
#[derive(PartialEq, Eq, Structural, Clone, Copy, Debug)]
pub enum StartAction {
    /// Ask the engine for the status of a container of that name
    QueryContainer,
    /// Ask the engine to inspect the data volume
    InspectVolume,
    /// Ask the engine to create the data volume
    CreateVolume,
    /// Print the engine command line instead of running it (ends the start)
    PrintCommand,
    /// Run the engine with the command line (ends the start)
    RunEngine,
    /// Report that the container already exists and fail (ends the start)
    ContainerExists,
    /// Report that the data volume could not be created and fail (ends the start)
    VolumeFailed,
    /// Nothing: the start has ended
    Done,
}

/// The last step: print the command on a dry run, run it otherwise.
pub open spec fn launch(dry_run: bool) -> (StartStage, StartAction) {
    (StartStage::Finished, if dry_run { StartAction::PrintCommand } else { StartAction::RunEngine })
}

/// Once the container is known not to exist (or was not asked about): the
/// data volume comes next, unless the user declined it.
pub open spec fn after_container_check(dry_run: bool, no_data_volume: bool) -> (StartStage, StartAction) {
    if no_data_volume {
        launch(dry_run)
    } else {
        (StartStage::InspectingVolume, StartAction::InspectVolume)
    }
}

/// One step of starting a container. `outcome` is the result of the action
/// last asked for: whether the container exists after `QueryContainer`,
/// whether the engine succeeded after `InspectVolume` and `CreateVolume`;
/// at `Begin` and `Finished` it is not looked at.
///
/// A dry run does not ask whether the container exists, but it still
/// prepares the data volume.
pub open spec fn start_step_spec(dry_run: bool, no_data_volume: bool, stage: StartStage, outcome: bool)
    -> (StartStage, StartAction)
{
    match stage {
        StartStage::Begin => if dry_run {
            after_container_check(dry_run, no_data_volume)
        } else {
            (StartStage::CheckingContainer, StartAction::QueryContainer)
        },
        StartStage::CheckingContainer => if outcome {
            (StartStage::Finished, StartAction::ContainerExists)
        } else {
            after_container_check(dry_run, no_data_volume)
        },
        StartStage::InspectingVolume => if outcome {
            launch(dry_run)
        } else {
            (StartStage::CreatingVolume, StartAction::CreateVolume)
        },
        StartStage::CreatingVolume => if outcome {
            launch(dry_run)
        } else {
            (StartStage::Finished, StartAction::VolumeFailed)
        },
        StartStage::Finished => (StartStage::Finished, StartAction::Done),
    }
}

/// One step of starting the container described by `cli`: from the stage
/// reached and the result of the action last asked for, the next stage and
/// the action to take (see `start_step_spec`).
pub fn start_step(cli: &CmdStartArgs, dry_run: bool, stage: StartStage, outcome: bool)
    -> (next: (StartStage, StartAction))
    ensures
        next == start_step_spec(dry_run, cli.no_data_volume, stage, outcome),
{
    let launch = (StartStage::Finished, if dry_run { StartAction::PrintCommand } else { StartAction::RunEngine });
    let after_check = if cli.no_data_volume {
        launch
    } else {
        (StartStage::InspectingVolume, StartAction::InspectVolume)
    };
    match stage {
        StartStage::Begin => if dry_run {
            after_check
        } else {
            (StartStage::CheckingContainer, StartAction::QueryContainer)
        },
        StartStage::CheckingContainer => if outcome {
            (StartStage::Finished, StartAction::ContainerExists)
        } else {
            after_check
        },
        StartStage::InspectingVolume => if outcome {
            launch
        } else {
            (StartStage::CreatingVolume, StartAction::CreateVolume)
        },
        StartStage::CreatingVolume => if outcome {
            launch
        } else {
            (StartStage::Finished, StartAction::VolumeFailed)
        },
        StartStage::Finished => (StartStage::Finished, StartAction::Done),
    }
}

/// The result the outside world gives for the action awaited at `stage`.
pub open spec fn outcome_at(stage: StartStage, exists: bool, inspect_ok: bool, create_ok: bool) -> bool {
    match stage {
        StartStage::CheckingContainer => exists,
        StartStage::InspectingVolume => inspect_ok,
        StartStage::CreatingVolume => create_ok,
        _ => false,
    }
}

/// What each step asks for agrees with where it leaves the start: the stage
/// reached names the one result awaited, and the action asked for is the one
/// that produces it; a step that ends the start asks for a final action.
/// A dry run never asks whether the container exists and never runs the
/// engine, a real start never merely prints; the container is refused only
/// when it was found, the volume is created only when inspecting it failed,
/// the start fails on the volume only when creating it failed, and the
/// command is printed or run only once the container was found absent (or
/// not asked about) and the data volume was found, created or declined.
pub proof fn lemma_start_step_actions(dry_run: bool, no_data_volume: bool, stage: StartStage, outcome: bool)
    ensures
        ({
            let (next, action) = start_step_spec(dry_run, no_data_volume, stage, outcome);
            &&& (next == StartStage::CheckingContainer <==> action == StartAction::QueryContainer)
            &&& (next == StartStage::InspectingVolume <==> action == StartAction::InspectVolume)
            &&& (next == StartStage::CreatingVolume <==> action == StartAction::CreateVolume)
            &&& next != StartStage::Begin
            &&& (action == StartAction::Done <==> stage == StartStage::Finished)
            &&& (dry_run ==> action != StartAction::RunEngine && action != StartAction::QueryContainer)
            &&& (!dry_run ==> action != StartAction::PrintCommand)
            &&& (action == StartAction::QueryContainer ==> stage == StartStage::Begin)
            &&& (action == StartAction::ContainerExists <==> stage == StartStage::CheckingContainer && outcome)
            &&& (action == StartAction::CreateVolume <==> stage == StartStage::InspectingVolume && !outcome)
            &&& (action == StartAction::VolumeFailed <==> stage == StartStage::CreatingVolume && !outcome)
            &&& (action == StartAction::InspectVolume ==> !no_data_volume && (stage == StartStage::Begin
                || stage == StartStage::CheckingContainer && !outcome))
            &&& ((action == StartAction::PrintCommand || action == StartAction::RunEngine) ==> {
                ||| no_data_volume && stage == StartStage::Begin && dry_run
                ||| no_data_volume && stage == StartStage::CheckingContainer && !outcome
                ||| stage == StartStage::InspectingVolume && outcome
                ||| stage == StartStage::CreatingVolume && outcome
            })
        }),
{
}

/// The stage and action reached after at most `fuel` steps from `stage`,
/// when the outside world answers with `exists`, `inspect_ok`, `create_ok`.
pub open spec fn run_start(
    dry_run: bool,
    no_data_volume: bool,
    exists: bool,
    inspect_ok: bool,
    create_ok: bool,
    stage: StartStage,
    action: StartAction,
    fuel: nat,
) -> (StartStage, StartAction)
    decreases fuel,
{
    if fuel == 0 || stage == StartStage::Finished {
        (stage, action)
    } else {
        let next = start_step_spec(dry_run, no_data_volume, stage, outcome_at(stage, exists, inspect_ok, create_ok));
        run_start(dry_run, no_data_volume, exists, inspect_ok, create_ok, next.0, next.1, (fuel - 1) as nat)
    }
}

/// How a start ends, stated directly: an existing container is refused
/// (a dry run does not ask), a data volume that can be neither inspected nor
/// created fails the start, and otherwise the command is printed on a dry
/// run and run on a real one.
pub open spec fn start_result(dry_run: bool, no_data_volume: bool, exists: bool, inspect_ok: bool, create_ok: bool)
    -> StartAction
{
    if !dry_run && exists {
        StartAction::ContainerExists
    } else if !no_data_volume && !inspect_ok && !create_ok {
        StartAction::VolumeFailed
    } else if dry_run {
        StartAction::PrintCommand
    } else {
        StartAction::RunEngine
    }
}

/// Starting a container always ends within four steps, and ends as
/// `start_result` says: the engine is never run for a container that already
/// exists, nor without the data volume when one is wanted.
pub proof fn lemma_start_ends_as_stated(
    dry_run: bool,
    no_data_volume: bool,
    exists: bool,
    inspect_ok: bool,
    create_ok: bool,
)
    ensures
        run_start(dry_run, no_data_volume, exists, inspect_ok, create_ok, StartStage::Begin, StartAction::Done, 4)
            == (StartStage::Finished, start_result(dry_run, no_data_volume, exists, inspect_ok, create_ok)),
{
    reveal_with_fuel(run_start, 5);
}

} // verus!
