use vstd::prelude::*;

use crate::text::views_of;

verus! {

/// The outcome of the environment check: what is installed, whether the
/// capture daemon answers, and whether the machine meets the fixed
/// resource floors (8 GB of RAM, 10 GB of free disk).
pub struct SystemCheckResult {
    pub ollama_installed: bool,
    pub screenpipe_installed: bool,
    pub screenpipe_running: bool,
    pub ollama_version: Option<String>,
    pub screenpipe_version: Option<String>,
    pub screenpipe_path: Option<String>,
    pub ram_ok: bool,
    pub total_ram_gb: u64,
    pub disk_ok: bool,
    pub free_disk_gb: u64,
}

/// Judge the probed environment: the probe results pass through, and the
/// resource verdicts apply the fixed floors of 8 GB RAM and 10 GB free
/// disk.
pub fn check_system_requirements(
    ollama_installed: bool,
    ollama_version: Option<String>,
    screenpipe_installed: bool,
    screenpipe_version: Option<String>,
    screenpipe_path: Option<String>,
    screenpipe_running: bool,
    total_ram_gb: u64,
    free_disk_gb: u64,
) -> (r: SystemCheckResult)
    ensures
        r.ollama_installed == ollama_installed,
        r.screenpipe_installed == screenpipe_installed,
        r.screenpipe_running == screenpipe_running,
        r.ollama_version == ollama_version,
        r.screenpipe_version == screenpipe_version,
        r.screenpipe_path == screenpipe_path,
        r.ram_ok == (total_ram_gb >= 8),
        r.total_ram_gb == total_ram_gb,
        r.disk_ok == (free_disk_gb >= 10),
        r.free_disk_gb == free_disk_gb,
{
    SystemCheckResult {
        ollama_installed,
        screenpipe_installed,
        screenpipe_running,
        ollama_version,
        screenpipe_version,
        screenpipe_path,
        ram_ok: total_ram_gb >= 8,
        total_ram_gb,
        disk_ok: free_disk_gb >= 10,
        free_disk_gb,
    }
}

/// Copy a vector of argument strings.
fn clone_args(args: &Vec<String>) -> (r: Vec<String>)
    ensures
        views_of(r@) == views_of(args@),
{
    let mut r: Vec<String> = Vec::new();
    let mut i: usize = 0;
    while i < args.len()
        invariant
            i <= args.len(),
            r@.len() == i,
            forall|j: int| 0 <= j < i ==> (#[trigger] r@[j])@ == args@[j]@,
        decreases args.len() - i,
    {
        r.push(args[i].clone());
        i = i + 1;
    }
    proof {
        assert(views_of(r@) =~= views_of(args@));
    }
    r
}

/// Prepend one fixed subcommand to the caller's arguments.
fn subcommand(name: &str, args: &Vec<String>) -> (cmd: Vec<String>)
    ensures
        views_of(cmd@) == seq![name@] + views_of(args@),
{
    let mut cmd: Vec<String> = Vec::new();
    cmd.push(String::from_str(name));
    let mut i: usize = 0;
    while i < args.len()
        invariant
            i <= args.len(),
            cmd@.len() == i + 1,
            cmd@[0]@ == name@,
            forall|j: int| 1 <= j <= i ==> (#[trigger] cmd@[j])@ == args@[j - 1]@,
        decreases args.len() - i,
    {
        cmd.push(args[i].clone());
        i = i + 1;
    }
    proof {
        assert(views_of(cmd@) =~= seq![name@] + views_of(args@));
    }
    cmd
}

/// The argument list of the capture daemon's help command.
pub fn screenpipe_help() -> (cmd: Vec<String>)
    ensures
        views_of(cmd@) == seq!["--help"@],
{
    let mut cmd: Vec<String> = Vec::new();
    cmd.push(String::from_str("--help"));
    proof {
        assert(views_of(cmd@) =~= seq!["--help"@]);
    }
    cmd
}

/// The argument list of the capture daemon's version command.
pub fn screenpipe_version() -> (cmd: Vec<String>)
    ensures
        views_of(cmd@) == seq!["--version"@],
{
    let mut cmd: Vec<String> = Vec::new();
    cmd.push(String::from_str("--version"));
    proof {
        assert(views_of(cmd@) =~= seq!["--version"@]);
    }
    cmd
}

/// The argument list of an audio subcommand.
pub fn screenpipe_audio(args: &Vec<String>) -> (cmd: Vec<String>)
    ensures
        views_of(cmd@) == seq!["audio"@] + views_of(args@),
{
    subcommand("audio", args)
}

/// The argument list of a vision subcommand.
pub fn screenpipe_vision(args: &Vec<String>) -> (cmd: Vec<String>)
    ensures
        views_of(cmd@) == seq!["vision"@] + views_of(args@),
{
    subcommand("vision", args)
}

/// The argument list of a pipe subcommand.
pub fn screenpipe_pipe(args: &Vec<String>) -> (cmd: Vec<String>)
    ensures
        views_of(cmd@) == seq!["pipe"@] + views_of(args@),
{
    subcommand("pipe", args)
}

/// The argument list of an mcp subcommand.
pub fn screenpipe_mcp(args: &Vec<String>) -> (cmd: Vec<String>)
    ensures
        views_of(cmd@) == seq!["mcp"@] + views_of(args@),
{
    subcommand("mcp", args)
}

/// The argument list of an add subcommand.
pub fn screenpipe_add(args: &Vec<String>) -> (cmd: Vec<String>)
    ensures
        views_of(cmd@) == seq!["add"@] + views_of(args@),
{
    subcommand("add", args)
}

/// The argument list of a migrate subcommand.
pub fn screenpipe_migrate(args: &Vec<String>) -> (cmd: Vec<String>)
    ensures
        views_of(cmd@) == seq!["migrate"@] + views_of(args@),
{
    subcommand("migrate", args)
}

/// The argument list of a completions subcommand.
pub fn screenpipe_completions(args: &Vec<String>) -> (cmd: Vec<String>)
    ensures
        views_of(cmd@) == seq!["completions"@] + views_of(args@),
{
    subcommand("completions", args)
}

/// The argument list of an arbitrary command, passed through unchanged.
pub fn screenpipe_custom(args: &Vec<String>) -> (cmd: Vec<String>)
    ensures
        views_of(cmd@) == views_of(args@),
{
    clone_args(args)
}

/// A request for one application's icon.
pub struct AppIconQuery {
    pub name: String,
    pub path: Option<String>,
}

/// An application icon: raw image bytes and their format name.
pub struct AppIcon {
    pub data: Vec<u8>,
    pub format: String,
}

} // verus!
