//! The errors of the application, their exit codes and the issues they
//! report to machine readers.

use vstd::prelude::*;

verus! {

/// One problem found in a document, located by the field it concerns.
#[derive(Debug, Clone, PartialEq, Eq)]
pub struct ValidationIssue {
    pub field: String,
    pub message: String,
}

impl View for ValidationIssue {
    type V = (Seq<char>, Seq<char>);

    open spec fn view(&self) -> (Seq<char>, Seq<char>) {
        (self.field@, self.message@)
    }
}

/// The field and message of each issue, in order.
pub open spec fn issue_views(v: Seq<ValidationIssue>) -> Seq<(Seq<char>, Seq<char>)> {
    v.map_values(|i: ValidationIssue| i@)
}

impl ValidationIssue {
    /// An issue of `field` described by `message`.
    pub fn new(field: &str, message: &str) -> (r: ValidationIssue)
        ensures
            r@ == (field@, message@),
    {
        ValidationIssue { field: String::from_str(field), message: String::from_str(message) }
    }

    /// An issue with the same field and message.
    pub fn duplicate(&self) -> (r: ValidationIssue)
        ensures
            r@ == self@,
    {
        ValidationIssue { field: self.field.clone(), message: self.message.clone() }
    }
}

/// A copy of a list of issues.
pub fn duplicate_issues(v: &Vec<ValidationIssue>) -> (r: Vec<ValidationIssue>)
    ensures
        issue_views(r@) == issue_views(v@),
{
    let mut r: Vec<ValidationIssue> = Vec::new();
    let mut i: usize = 0;
    while i < v.len()
        invariant
            i <= v.len(),
            issue_views(r@) == issue_views(v@).take(i as int),
        decreases v.len() - i,
    {
        let ghost before = issue_views(r@);
        r.push(v[i].duplicate());
        proof {
            assert(issue_views(r@) =~= before.push(v@[i as int]@));
            assert(issue_views(v@).take(i + 1) =~= issue_views(v@).take(i as int).push(
                v@[i as int]@,
            ));
        }
        i = i + 1;
    }
    assert(issue_views(v@).take(v.len() as int) =~= issue_views(v@));
    r
}

/// The ways an operation of the application fails.
#[derive(Debug)]
pub enum AppError {
    Validation { issues: Vec<ValidationIssue> },
    Parse { path: String, message: String },
    ThemeNotFound { name: String },
    FileWrite { path: String, message: String },
    FileRead { path: String, message: String },
    OverwriteRequired { path: String },
    InvalidTheme { name: String, message: String },
    Network(String),
    Config(String),
    Mcp(String),
}

/// The process exit code of each kind of error.
pub open spec fn exit_code_of(e: AppError) -> i32 {
    match e {
        AppError::Validation { .. } => 1,
        AppError::ThemeNotFound { .. } => 2,
        AppError::FileWrite { .. } | AppError::OverwriteRequired { .. } => 3,
        AppError::Parse { .. } | AppError::FileRead { .. } => 4,
        AppError::InvalidTheme { .. } => 5,
        AppError::Network(_) => 6,
        AppError::Config(_) => 7,
        AppError::Mcp(_) => 8,
    }
}

/// The issues an error reports to machine readers.
pub open spec fn issues_of(e: AppError) -> Seq<(Seq<char>, Seq<char>)> {
    match e {
        AppError::Validation { issues } => issue_views(issues@),
        AppError::Parse { path, message } => seq![(path@, message@)],
        AppError::ThemeNotFound { name } => seq![
            ("theme"@, "theme '"@ + name@ + "' was not found"@),
        ],
        AppError::FileWrite { path, message } => seq![(path@, message@)],
        AppError::FileRead { path, message } => seq![(path@, message@)],
        AppError::OverwriteRequired { path } => seq![
            (path@, "destination file already exists"@),
        ],
        AppError::InvalidTheme { name, message } => seq![(name@, message@)],
        AppError::Network(message) => seq![("general"@, message@)],
        AppError::Config(message) => seq![("general"@, message@)],
        AppError::Mcp(message) => seq![("general"@, message@)],
    }
}

/// The one-line description of an error.
pub open spec fn message_of(e: AppError) -> Seq<char> {
    match e {
        AppError::Validation { .. } => "schema validation failed"@,
        AppError::Parse { path, message } => "failed to parse "@ + path@ + ": "@ + message@,
        AppError::ThemeNotFound { name } => "theme '"@ + name@ + "' was not found"@,
        AppError::FileWrite { path, message } => "failed to write file '"@ + path@ + "': "@
            + message@,
        AppError::FileRead { path, message } => "failed to read file '"@ + path@ + "': "@
            + message@,
        AppError::OverwriteRequired { path } => "overwrite required for existing file '"@ + path@
            + "'"@,
        AppError::InvalidTheme { name, message } => "invalid theme '"@ + name@ + "': "@
            + message@,
        AppError::Network(message) => "network error: "@ + message@,
        AppError::Config(message) => "configuration error: "@ + message@,
        AppError::Mcp(message) => "mcp protocol error: "@ + message@,
    }
}

/// `a` and then `b`.
fn concat2(a: &str, b: &str) -> (r: String)
    ensures
        r@ == a@ + b@,
{
    let mut r = String::from_str(a);
    r.append(b);
    r
}

/// `a`, `b` and `c` one after the other.
fn concat3(a: &str, b: &str, c: &str) -> (r: String)
    ensures
        r@ == a@ + b@ + c@,
{
    let mut r = String::from_str(a);
    r.append(b);
    r.append(c);
    r
}

/// `a`, `b`, `c` and `d` one after the other.
fn concat4(a: &str, b: &str, c: &str, d: &str) -> (r: String)
    ensures
        r@ == a@ + b@ + c@ + d@,
{
    let mut r = concat3(a, b, c);
    r.append(d);
    r
}

impl AppError {
    /// The process exit code of the error.
    pub fn exit_code(&self) -> (r: i32)
        ensures
            r == exit_code_of(*self),
    {
        match self {
            AppError::Validation { .. } => 1,
            AppError::ThemeNotFound { .. } => 2,
            AppError::FileWrite { .. } | AppError::OverwriteRequired { .. } => 3,
            AppError::Parse { .. } | AppError::FileRead { .. } => 4,
            AppError::InvalidTheme { .. } => 5,
            AppError::Network(_) => 6,
            AppError::Config(_) => 7,
            AppError::Mcp(_) => 8,
        }
    }

    /// The issues the error reports to machine readers.
    pub fn issues(&self) -> (r: Vec<ValidationIssue>)
        ensures
            issue_views(r@) == issues_of(*self),
    {
        let r = match self {
            AppError::Validation { issues } => {
                return duplicate_issues(issues);
            },
            AppError::Parse { path, message } => ValidationIssue::new(
                path.as_str(),
                message.as_str(),
            ),
            AppError::ThemeNotFound { name } => {
                let text = concat3("theme '", name.as_str(), "' was not found");
                ValidationIssue::new("theme", text.as_str())
            },
            AppError::FileWrite { path, message } => ValidationIssue::new(
                path.as_str(),
                message.as_str(),
            ),
            AppError::FileRead { path, message } => ValidationIssue::new(
                path.as_str(),
                message.as_str(),
            ),
            AppError::OverwriteRequired { path } => ValidationIssue::new(
                path.as_str(),
                "destination file already exists",
            ),
            AppError::InvalidTheme { name, message } => ValidationIssue::new(
                name.as_str(),
                message.as_str(),
            ),
            AppError::Network(message) => ValidationIssue::new("general", message.as_str()),
            AppError::Config(message) => ValidationIssue::new("general", message.as_str()),
            AppError::Mcp(message) => ValidationIssue::new("general", message.as_str()),
        };
        let v = vec![r];
        assert(issue_views(v@) =~= seq![r@]);
        v
    }

    /// The one-line description of the error.
    pub fn to_string(&self) -> (r: String)
        ensures
            r@ == message_of(*self),
    {
        match self {
            AppError::Validation { .. } => String::from_str("schema validation failed"),
            AppError::Parse { path, message } => concat4(
                "failed to parse ",
                path.as_str(),
                ": ",
                message.as_str(),
            ),
            AppError::ThemeNotFound { name } => concat3(
                "theme '",
                name.as_str(),
                "' was not found",
            ),
            AppError::FileWrite { path, message } => concat4(
                "failed to write file '",
                path.as_str(),
                "': ",
                message.as_str(),
            ),
            AppError::FileRead { path, message } => concat4(
                "failed to read file '",
                path.as_str(),
                "': ",
                message.as_str(),
            ),
            AppError::OverwriteRequired { path } => concat3(
                "overwrite required for existing file '",
                path.as_str(),
                "'",
            ),
            AppError::InvalidTheme { name, message } => concat4(
                "invalid theme '",
                name.as_str(),
                "': ",
                message.as_str(),
            ),
            AppError::Network(message) => concat2("network error: ", message.as_str()),
            AppError::Config(message) => concat2("configuration error: ", message.as_str()),
            AppError::Mcp(message) => concat2("mcp protocol error: ", message.as_str()),
        }
    }
}

} // verus!
