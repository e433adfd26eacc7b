//! The arguments of the command-line front end.

use vstd::prelude::*;

use crate::model::results::OutputFormat;

verus! {

/// `build`: compile a resume into PDF and/or DOCX.
#[derive(Debug, Clone)]
pub struct BuildArgs {
    pub input: String,
    pub format: Option<OutputFormat>,
    pub theme: Option<String>,
    pub output_dir: Option<String>,
    pub output_name: Option<String>,
    pub json_output: bool,
    pub quiet: bool,
    pub verbose: bool,
    pub overwrite: bool,
    pub non_interactive: bool,
}

/// `validate`: check a resume.
#[derive(Debug, Clone)]
pub struct ValidateArgs {
    pub input: String,
    pub json_output: bool,
}

/// `theme`: list, create or install themes.
#[derive(Debug, Clone)]
pub struct ThemeArgs {
    pub command: ThemeCommand,
}

/// The `theme` subcommands.
#[derive(Debug, Clone)]
pub enum ThemeCommand {
    List,
    New { name: String },
    Install { source: String },
}

/// `init`: write an example resume.
#[derive(Debug, Clone, Copy)]
pub struct InitArgs {
    pub format: InitFormat,
}

/// The format of the example resume `init` writes.
#[derive(Debug, Clone, Copy, PartialEq, Eq, Structural)]
pub enum InitFormat {
    Json,
    Toml,
    Yaml,
}

/// `config`: show or change the preferences.
#[derive(Debug, Clone)]
pub struct ConfigArgs {
    pub command: ConfigCommand,
}

/// The `config` subcommands.
#[derive(Debug, Clone)]
pub enum ConfigCommand {
    Show,
    SetKey { key: String, value: String },
}

/// `mcp`: run the MCP server.
#[derive(Debug, Clone, Copy)]
pub struct McpArgs {
    pub command: McpCommand,
}

/// The `mcp` subcommands.
#[derive(Debug, Clone, Copy, PartialEq, Eq, Structural)]
pub enum McpCommand {
    Serve,
}

} // verus!
