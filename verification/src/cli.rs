//! The shape of a parsed command line, and what follows from its global
//! options.

use vstd::prelude::*;
use crate::styles::{RenderMode, StyleOptions};

verus! {

/// Global options and the subcommand.
#[derive(Debug)]
pub struct Cli {
    /// Whether output is coloured.
    pub color: ColorChoice,
    /// Fancy or plain output.
    pub style: StyleChoice,
    /// Suppresses what is not essential.
    pub quiet: bool,
    /// Asks for the graphical interface at installation.
    pub gui: bool,
    pub command: Commands,
}

#[derive(Copy, Clone, Eq, PartialEq, Debug, Structural)]
pub enum ColorChoice {
    Auto,
    Always,
    Never,
}

#[derive(Copy, Clone, Eq, PartialEq, Debug, Structural)]
pub enum StyleChoice {
    Fancy,
    Plain,
}

/// The subcommands.
#[derive(Debug)]
pub enum Commands {
    Create(CreateArgs),
    ListProjects,
    DeleteProject(DeleteProjectArgs),
    Add(ProjectKeyValueArgs),
    Get(ProjectKeyArgs),
    List(ProjectTargetArgs),
    Delete(ProjectKeyArgsForce),
    Update(ProjectKeyValueArgs),
    Count(CountArgs),
    GlobalAdd(GlobalKeyValueArgs),
    GlobalGet(GlobalKeyArgs),
    GlobalList,
    GlobalDelete(GlobalKeyArgsForce),
    GlobalUpdate(GlobalKeyValueArgs),
    Export(ExportArgs),
    Run(RunArgs),
    ShowAll,
    Clean,
    CleanCache { force: bool },
    DeleteAll { force: bool },
    About,
    MasterLock { enable: bool, disable: bool },
    Launch { gui: bool },
    Setup { add_path: bool },
    CheckUpdate,
}

/// Arguments of `create`.
#[derive(Debug)]
pub struct CreateArgs {
    /// Project name, or `global` for the shared bucket.
    pub name: String,
    /// Whether the project gets a password.
    pub lock: bool,
    /// The password, where it is not asked for.
    pub password: Option<String>,
}

/// Arguments of a command on one project.
#[derive(Debug)]
pub struct ProjectTargetArgs {
    /// Project id or name.
    pub project: String,
}

/// Arguments of `delete-project`.
#[derive(Debug)]
pub struct DeleteProjectArgs {
    /// Project id or name.
    pub id: String,
    /// Skips the confirmation.
    pub force: bool,
}

/// Arguments of a command on one key of a project.
#[derive(Debug)]
pub struct ProjectKeyArgs {
    pub project: String,
    pub key: String,
}

/// Arguments of a command on one key of a project that may be forced.
#[derive(Debug)]
pub struct ProjectKeyArgsForce {
    pub project: String,
    pub key: String,
    pub force: bool,
}

/// Arguments of a command that sets one key of a project.
#[derive(Debug)]
pub struct ProjectKeyValueArgs {
    pub project: String,
    pub key: String,
    /// The value, where it is not read from standard input.
    pub value: Option<String>,
}

/// Arguments of `export`.
#[derive(Debug)]
pub struct ExportArgs {
    pub project: Option<String>,
    /// Exports the shared bucket.
    pub global: bool,
    /// The file to write, `.env` by default.
    pub file: Option<String>,
    /// Overwrites an existing file.
    pub force: bool,
    /// Removes the file again on interrupt.
    pub temp: bool,
}

/// Arguments of `run`.
#[derive(Debug)]
pub struct RunArgs {
    pub project: String,
    /// Adds the credentials of the shared bucket.
    pub with_global: bool,
    /// The program and its arguments.
    pub command: Vec<String>,
}

/// Arguments of `count`.
#[derive(Debug)]
pub struct CountArgs {
    /// The one project to count, or none for all.
    pub project: Option<String>,
    pub include_global: bool,
    pub detailed: bool,
}

/// Arguments of a command on one key of the shared bucket.
#[derive(Debug)]
pub struct GlobalKeyArgs {
    pub key: String,
}

/// Arguments of a command on one key of the shared bucket that may be forced.
#[derive(Debug)]
pub struct GlobalKeyArgsForce {
    pub key: String,
    pub force: bool,
}

/// Arguments of a command that sets one key of the shared bucket.
#[derive(Debug)]
pub struct GlobalKeyValueArgs {
    pub key: String,
    pub value: Option<String>,
}

/// Whether output is coloured: as asked, and on a terminal where nothing
/// was asked.
pub fn use_color(choice: ColorChoice, stdout_is_terminal: bool) -> (r: bool)
    ensures
        r == match choice {
            ColorChoice::Auto => stdout_is_terminal,
            ColorChoice::Always => true,
            ColorChoice::Never => false,
        },
{
    match choice {
        ColorChoice::Auto => stdout_is_terminal,
        ColorChoice::Always => true,
        ColorChoice::Never => false,
    }
}

/// The style options that the global options ask for.
pub fn style_options(cli: &Cli, stdout_is_terminal: bool) -> (o: StyleOptions)
    ensures
        o.mode == match cli.style {
            StyleChoice::Fancy => RenderMode::Fancy,
            StyleChoice::Plain => RenderMode::Plain,
        },
        o.use_color == match cli.color {
            ColorChoice::Auto => stdout_is_terminal,
            ColorChoice::Always => true,
            ColorChoice::Never => false,
        },
        o.quiet == cli.quiet,
{
    let mode = match cli.style {
        StyleChoice::Fancy => RenderMode::Fancy,
        StyleChoice::Plain => RenderMode::Plain,
    };
    StyleOptions { mode, use_color: use_color(cli.color, stdout_is_terminal), quiet: cli.quiet }
}

/// What `master-lock` is asked to do: enable, disable, or show the status.
/// Where both flags are given, enabling wins.
pub fn master_lock_action(enable: bool, disable: bool) -> (action: Option<bool>)
    ensures
        action == if enable {
            Some(true)
        } else if disable {
            Some(false)
        } else {
            None
        },
{
    if enable {
        Some(true)
    } else if disable {
        Some(false)
    } else {
        None
    }
}

/// Whether the first-run prompt is due: on a first run of any command but
/// `setup`.
pub fn should_run_install_prompt(cmd: &Cli, first_run: bool) -> (r: bool)
    ensures
        r == (first_run && !(cmd.command is Setup)),
{
    match &cmd.command {
        Commands::Setup { .. } => false,
        _ => first_run,
    }
}

/// Whether a start looks for updates in the background: before every
/// command but `check-update`.
pub fn checks_for_updates(cmd: &Cli) -> (r: bool)
    ensures
        r == !(cmd.command is CheckUpdate),
{
    match &cmd.command {
        Commands::CheckUpdate => false,
        _ => true,
    }
}

} // verus!
