//! The decisions of the MCP server: which method or tool a request calls,
//! and with which arguments.

use vstd::prelude::*;

use crate::cli::{McpArgs, McpCommand};
use crate::commands::config::{format_named, parse_output_format};
use crate::error::AppError;
use crate::model::results::OutputFormat;
use crate::text::{opt_string_view, str_eq, views};
use crate::util::{derive_output_name_from_path, is_default_output_name};

verus! {

/// The MCP subcommand to run.
pub fn handle_mcp(args: &McpArgs) -> (r: McpCommand)
    ensures
        r == args.command,
{
    args.command
}

/// The arguments of a tool call, each one present only where the request
/// gives it with the expected JSON type.
#[derive(Debug, Clone)]
pub struct McpArguments {
    pub input: Option<String>,
    pub format: Option<String>,
    pub theme: Option<String>,
    pub output_dir: Option<String>,
    pub output_name: Option<String>,
    pub overwrite: Option<bool>,
}

/// A request to the MCP server: its method, the tool name it calls (a
/// string `params.name`), and the tool's arguments.
#[derive(Debug, Clone)]
pub struct McpRequest {
    pub method: String,
    pub tool: Option<String>,
    pub arguments: McpArguments,
}

/// What the server does for a request.
#[derive(Debug, Clone)]
pub enum McpAction {
    Initialize,
    ListTools,
    ValidateResume { input: String },
    BuildResume {
        input: String,
        format: OutputFormat,
        theme_name: String,
        output_dir: Option<String>,
        output_name: String,
        overwrite: bool,
    },
    ListThemes,
    GetPreferences,
}

/// `r` is an MCP protocol error with message `m`.
pub open spec fn is_mcp_error(r: Result<McpAction, AppError>, m: Seq<char>) -> bool {
    match r {
        Err(AppError::Mcp(x)) => x@ == m,
        _ => false,
    }
}

/// What the server does for a `build_resume` call.
pub open spec fn build_call(r: Result<McpAction, AppError>, a: McpArguments) -> bool {
    match a.input {
        None => is_mcp_error(r, "build_resume requires input"@),
        Some(input) => {
            let format = match opt_string_view(a.format) {
                Some(w) => format_named(w),
                None => Some(OutputFormat::Pdf),
            };
            match format {
                None => is_mcp_error(r, "format must be pdf, docx, or both"@),
                Some(f) => match r {
                    Ok(McpAction::BuildResume { input: i, format: g, theme_name, output_dir, output_name, overwrite }) => {
                        &&& i@ == input@
                        &&& g == f
                        &&& theme_name@ == match opt_string_view(a.theme) {
                            Some(t) => t,
                            None => Seq::empty(),
                        }
                        &&& opt_string_view(output_dir) == opt_string_view(a.output_dir)
                        &&& match a.output_name {
                            Some(n) => output_name@ == n@,
                            None => is_default_output_name(output_name@, input@),
                        }
                        &&& overwrite == match a.overwrite {
                            Some(b) => b,
                            None => false,
                        }
                    },
                    _ => false,
                },
            }
        },
    }
}

/// What the server does for a `tools/call` request.
pub open spec fn tool_call(r: Result<McpAction, AppError>, req: McpRequest) -> bool {
    match req.tool {
        None => is_mcp_error(r, "tools/call requires a tool name"@),
        Some(name) => if name@ == "validate_resume"@ {
            match req.arguments.input {
                Some(input) => match r {
                    Ok(McpAction::ValidateResume { input: i }) => i@ == input@,
                    _ => false,
                },
                None => is_mcp_error(r, "validate_resume requires input"@),
            }
        } else if name@ == "build_resume"@ {
            build_call(r, req.arguments)
        } else if name@ == "list_themes"@ {
            r matches Ok(McpAction::ListThemes)
        } else if name@ == "get_preferences"@ {
            r matches Ok(McpAction::GetPreferences)
        } else {
            is_mcp_error(r, "unsupported tool: "@ + name@)
        },
    }
}

/// What the server does for a request: the method decides; tool calls go
/// by the tool's name; anything else is a protocol error.
pub open spec fn planned(r: Result<McpAction, AppError>, req: McpRequest) -> bool {
    if req.method@ == "initialize"@ {
        r matches Ok(McpAction::Initialize)
    } else if req.method@ == "tools/list"@ {
        r matches Ok(McpAction::ListTools)
    } else if req.method@ == "tools/call"@ {
        tool_call(r, req)
    } else {
        is_mcp_error(r, "unsupported method: "@ + req.method@)
    }
}

fn mcp_error(message: &str) -> (r: Result<McpAction, AppError>)
    ensures
        is_mcp_error(r, message@),
{
    Err(AppError::Mcp(String::from_str(message)))
}

fn mcp_error_with(prefix: &str, detail: &str) -> (r: Result<McpAction, AppError>)
    ensures
        is_mcp_error(r, prefix@ + detail@),
{
    let mut m = String::from_str(prefix);
    m.append(detail);
    Err(AppError::Mcp(m))
}

fn plan_build(a: &McpArguments) -> (r: Result<McpAction, AppError>)
    ensures
        build_call(r, *a),
{
    let input = match &a.input {
        Some(i) => i,
        None => {
            return mcp_error("build_resume requires input");
        },
    };
    let format = match &a.format {
        Some(w) => match parse_output_format(w.as_str()) {
            Some(f) => f,
            None => {
                return mcp_error("format must be pdf, docx, or both");
            },
        },
        None => OutputFormat::Pdf,
    };
    let theme_name = match &a.theme {
        Some(t) => t.clone(),
        None => String::new(),
    };
    let output_dir = match &a.output_dir {
        Some(d) => Some(d.clone()),
        None => None,
    };
    let output_name = match &a.output_name {
        Some(n) => n.clone(),
        None => derive_output_name_from_path(input.as_str()),
    };
    let overwrite = match a.overwrite {
        Some(b) => b,
        None => false,
    };
    Ok(
        McpAction::BuildResume {
            input: input.clone(),
            format,
            theme_name,
            output_dir,
            output_name,
            overwrite,
        },
    )
}

/// Decides what the server does for a request.
pub fn plan_mcp_request(request: &McpRequest) -> (r: Result<McpAction, AppError>)
    ensures
        planned(r, *request),
{
    let method = request.method.as_str();
    if str_eq(method, "initialize") {
        return Ok(McpAction::Initialize);
    }
    if str_eq(method, "tools/list") {
        return Ok(McpAction::ListTools);
    }
    if !str_eq(method, "tools/call") {
        return mcp_error_with("unsupported method: ", method);
    }
    let name = match &request.tool {
        Some(n) => n.as_str(),
        None => {
            return mcp_error("tools/call requires a tool name");
        },
    };
    if str_eq(name, "validate_resume") {
        match &request.arguments.input {
            Some(i) => Ok(McpAction::ValidateResume { input: i.clone() }),
            None => mcp_error("validate_resume requires input"),
        }
    } else if str_eq(name, "build_resume") {
        plan_build(&request.arguments)
    } else if str_eq(name, "list_themes") {
        Ok(McpAction::ListThemes)
    } else if str_eq(name, "get_preferences") {
        Ok(McpAction::GetPreferences)
    } else {
        mcp_error_with("unsupported tool: ", name)
    }
}

/// The JSON type of a tool parameter.
#[derive(Debug, Clone)]
pub enum ParameterKind {
    /// A string.
    Text,
    /// A boolean.
    Flag,
    /// One of the given strings.
    Choice(Vec<String>),
}

/// What a parameter kind stands for.
pub open spec fn kind_view(k: ParameterKind) -> Option<Seq<Seq<char>>> {
    match k {
        ParameterKind::Text => None,
        ParameterKind::Flag => Some(Seq::empty()),
        ParameterKind::Choice(v) => Some(views(v@)),
    }
}

/// A parameter of a tool: its name and kind.
#[derive(Debug, Clone)]
pub struct ToolParameter {
    pub name: String,
    pub kind: ParameterKind,
}

/// A tool the MCP server offers: its name, its description, the names of
/// the parameters it requires, and its parameters in order.
#[derive(Debug, Clone)]
pub struct McpTool {
    pub name: String,
    pub description: String,
    pub required: Vec<String>,
    pub parameters: Vec<ToolParameter>,
}

/// The tools the server lists, in order: `validate_resume` and
/// `build_resume`, which need an `input`, then `list_themes` and
/// `get_preferences`, which take nothing.
pub open spec fn tool_names() -> Seq<Seq<char>> {
    seq!["validate_resume"@, "build_resume"@, "list_themes"@, "get_preferences"@]
}

/// The parameters of `build_resume`, in order.
pub open spec fn build_parameter_names() -> Seq<Seq<char>> {
    seq!["input"@, "format"@, "theme"@, "output_dir"@, "output_name"@, "overwrite"@]
}

fn text_parameter(name: &str) -> (r: ToolParameter)
    ensures
        r.name@ == name@,
        r.kind is Text,
{
    ToolParameter { name: String::from_str(name), kind: ParameterKind::Text }
}

fn tool(name: &str, description: &str, required: Vec<String>, parameters: Vec<ToolParameter>) -> (r:
    McpTool)
    ensures
        r.name@ == name@,
        r.description@ == description@,
        r.required == required,
        r.parameters == parameters,
{
    McpTool { name: String::from_str(name), description: String::from_str(description), required, parameters }
}

/// The tools the MCP server lists for `tools/list`.
pub fn mcp_tools() -> (r: Vec<McpTool>)
    ensures
        r@.len() == 4,
        forall|i: int| 0 <= i < 4 ==> (#[trigger] r@[i]).name@ == tool_names()[i],
        views(r@[0].required@) == seq!["input"@],
        views(r@[1].required@) == seq!["input"@],
        r@[2].required@.len() == 0,
        r@[3].required@.len() == 0,
        r@[0].parameters@.len() == 1,
        r@[0].parameters@[0].name@ == "input"@,
        r@[0].parameters@[0].kind is Text,
        r@[1].parameters@.len() == 6,
        forall|i: int| 0 <= i < 6 ==> (#[trigger] r@[1].parameters@[i]).name@ == build_parameter_names()[i],
        r@[1].parameters@[0].kind is Text,
        kind_view(r@[1].parameters@[1].kind) == Some(seq!["pdf"@, "docx"@, "both"@]),
        r@[1].parameters@[2].kind is Text,
        r@[1].parameters@[3].kind is Text,
        r@[1].parameters@[4].kind is Text,
        r@[1].parameters@[5].kind is Flag,
        r@[2].parameters@.len() == 0,
        r@[3].parameters@.len() == 0,
        r@[0].description@ == "Validate a resume file against the canonical resumec schema."@,
        r@[1].description@ == "Build PDF and/or DOCX outputs from a resume file."@,
        r@[2].description@ == "List built-in and installed themes."@,
        r@[3].description@ == "Return the current resumec preferences."@,
{
    let validate = tool(
        "validate_resume",
        "Validate a resume file against the canonical resumec schema.",
        vec![String::from_str("input")],
        vec![text_parameter("input")],
    );
    let formats = vec![String::from_str("pdf"), String::from_str("docx"), String::from_str("both")];
    assert(views(formats@) =~= seq!["pdf"@, "docx"@, "both"@]);
    let build = tool(
        "build_resume",
        "Build PDF and/or DOCX outputs from a resume file.",
        vec![String::from_str("input")],
        vec![
            text_parameter("input"),
            ToolParameter { name: String::from_str("format"), kind: ParameterKind::Choice(formats) },
            text_parameter("theme"),
            text_parameter("output_dir"),
            text_parameter("output_name"),
            ToolParameter { name: String::from_str("overwrite"), kind: ParameterKind::Flag },
        ],
    );
    let themes = tool("list_themes", "List built-in and installed themes.", Vec::new(), Vec::new());
    let preferences = tool(
        "get_preferences",
        "Return the current resumec preferences.",
        Vec::new(),
        Vec::new(),
    );
    let r = vec![validate, build, themes, preferences];
    assert(views(r@[0].required@) =~= seq!["input"@]);
    assert(views(r@[1].required@) =~= seq!["input"@]);
    r
}

} // verus!
