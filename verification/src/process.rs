//! The process controller's decisions: the deterministic on-disk layout of
//! a fake game installation, the launch command for the placeholder
//! executable, and the forceful kill-by-name command.  The host performs
//! the directory creation, the copy, the spawn and the kill; it reports the
//! kill outcome back through `stop_outcome`.

use vstd::prelude::*;

use crate::errors::ProcessError;
use crate::text::dec_chars;
use crate::text::u64_to_string;

verus! {

/// The folder a fake game installation lives in, relative to the host's
/// executable directory: `<root>/games/<application_id>/<relative_path>`.
pub open spec fn game_folder_model(root: Seq<char>, application_id: nat, relative_path: Seq<char>)
    -> Seq<char> {
    root + "/games/"@ + dec_chars(application_id) + "/"@ + relative_path
}

/// The on-disk layout plan of one fake game installation: create
/// `game_folder` (and all parents, idempotently), then copy `source` to
/// `target_executable`.
pub struct MaterializePlan {
    pub game_folder: String,
    pub target_executable: String,
    pub source: String,
}

/// Computes where a fake game installation lives and what to copy there.
/// The same arguments always plan the same paths, so re-creation is
/// idempotent at the path level.
pub fn materialize(root: &str, application_id: u64, relative_path: &str, executable_name: &str,
    placeholder_source: &str) -> (r: MaterializePlan)
    ensures
        r.game_folder@ == game_folder_model(root@, application_id as nat, relative_path@),
        r.target_executable@ == r.game_folder@ + "/"@ + executable_name@,
        r.source@ == placeholder_source@,
{
    let mut folder = String::from_str(root);
    folder.append("/games/");
    let id = u64_to_string(application_id);
    folder.append(id.as_str());
    folder.append("/");
    folder.append(relative_path);
    let mut target = folder.clone();
    target.append("/");
    target.append(executable_name);
    MaterializePlan {
        game_folder: folder,
        target_executable: target,
        source: String::from_str(placeholder_source),
    }
}

/// Law: materialization is deterministic.  Two plans made from the same
/// root, application id, relative path and executable name name the same
/// folder and the same target file, so repeating the materialization leaves
/// exactly one planned copy of the placeholder at the target path.
pub proof fn lemma_materialize_deterministic(
    root: Seq<char>,
    application_id: nat,
    relative_path: Seq<char>,
    executable_name: Seq<char>,
    f1: Seq<char>,
    t1: Seq<char>,
    f2: Seq<char>,
    t2: Seq<char>,
)
    requires
        f1 == game_folder_model(root, application_id, relative_path),
        t1 == f1 + "/"@ + executable_name,
        f2 == game_folder_model(root, application_id, relative_path),
        t2 == f2 + "/"@ + executable_name,
    ensures
        f1 == f2,
        t1 == t2,
{
}

/// The launch command for the placeholder executable: run it from its game
/// folder, with the folder as working directory and the display title as
/// its argument.
pub struct SpawnPlan {
    pub program: String,
    pub working_dir: String,
    pub args: Vec<String>,
}

/// Computes the launch command for a previously materialized installation.
/// The child is detached: no handle is retained, so a later stop goes by
/// executable name, not by this instance.
pub fn spawn(name: &str, path: &str, executable_name: &str, application_id: u64, root: &str) -> (r:
    SpawnPlan)
    ensures
        r.working_dir@ == game_folder_model(root@, application_id as nat, path@),
        r.program@ == r.working_dir@ + "/"@ + executable_name@,
        r.args@.len() == 2,
        r.args@[0]@ == "--title"@,
        r.args@[1]@ == name@,
{
    let mut folder = String::from_str(root);
    folder.append("/games/");
    let id = u64_to_string(application_id);
    folder.append(id.as_str());
    folder.append("/");
    folder.append(path);
    let mut program = folder.clone();
    program.append("/");
    program.append(executable_name);
    let mut args: Vec<String> = Vec::new();
    args.push(String::from_str("--title"));
    args.push(String::from_str(name));
    SpawnPlan { program, working_dir: folder, args }
}

/// The forceful kill-by-name command: terminate every process on the host
/// whose image name matches, via the system's task-kill tool.
pub struct StopPlan {
    pub program: String,
    pub args: Vec<String>,
}

/// Computes the kill command for a placeholder executable name.
pub fn stop(exec_name: &str) -> (r: StopPlan)
    ensures
        r.program@ == "taskkill"@,
        r.args@.len() == 3,
        r.args@[0]@ == "/F"@,
        r.args@[1]@ == "/IM"@,
        r.args@[2]@ == exec_name@,
{
    let mut args: Vec<String> = Vec::new();
    args.push(String::from_str("/F"));
    args.push(String::from_str("/IM"));
    args.push(String::from_str(exec_name));
    StopPlan { program: String::from_str("taskkill"), args }
}

/// Interprets the kill command's outcome: success if and only if the tool
/// reported success; otherwise the tool's diagnostic text is surfaced
/// verbatim in the error.
pub fn stop_outcome(success: bool, stderr: &str) -> (r: Result<(), ProcessError>)
    ensures
        success <==> r is Ok,
        match r {
            Ok(_) => true,
            Err(e) => e.message@ == "Failed to stop process: "@ + stderr@,
        },
{
    if success {
        Ok(())
    } else {
        let mut message = String::from_str("Failed to stop process: ");
        message.append(stderr);
        Err(ProcessError { message })
    }
}

/// Which step of the process controller failed.
#[derive(Clone, Copy, Debug, PartialEq, Eq, Structural)]
pub enum FailureStage {
    /// Creating the game folder failed.
    CreateFolder,
    /// Copying the placeholder executable failed.
    CopyExecutable,
    /// Launching the placeholder executable failed.
    StartProcess,
    /// The kill tool itself could not be executed.
    LaunchKillTool,
}

/// The user-visible failure string for a controller step, carrying the
/// underlying OS error text verbatim.
pub fn failure_message(stage: FailureStage, os_error: &str) -> (r: String)
    ensures
        stage is CreateFolder ==> r@ == "Failed to create game folder: "@ + os_error@,
        stage is CopyExecutable ==> r@ == "Failed to copy dummy executable: "@ + os_error@,
        stage is StartProcess ==> r@ == "Failed to start process: "@ + os_error@,
        stage is LaunchKillTool ==> r@ == "Failed to execute taskkill: "@ + os_error@,
{
    let mut message = match stage {
        FailureStage::CreateFolder => String::from_str("Failed to create game folder: "),
        FailureStage::CopyExecutable => String::from_str("Failed to copy dummy executable: "),
        FailureStage::StartProcess => String::from_str("Failed to start process: "),
        FailureStage::LaunchKillTool => String::from_str("Failed to execute taskkill: "),
    };
    message.append(os_error);
    message
}

/// Which catalog endpoint a fetch goes to.
#[derive(Clone, Copy, Debug, PartialEq, Eq, Structural)]
pub enum CatalogSource {
    /// The service's own application catalog.
    Primary,
    /// The static mirror of the catalog.
    Mirror,
}

/// The catalog endpoint for a source.  Fetching is a pure pass-through the
/// host performs; only the choice of endpoint is decided here.
pub fn catalog_url(source: CatalogSource) -> (r: &'static str)
    ensures
        source is Primary ==> r@ == "https://discord.com/api/applications/detectable"@,
        source is Mirror ==> r@
            == "https://markterence.github.io/discord-quest-completer/detectable.json"@,
{
    match source {
        CatalogSource::Primary => "https://discord.com/api/applications/detectable",
        CatalogSource::Mirror => "https://markterence.github.io/discord-quest-completer/detectable.json",
    }
}

} // verus!
