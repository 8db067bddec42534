//! The application's error type, the HTTP status each error is answered
//! with, and the text a person reads for it.
use vstd::prelude::*;
use vstd::string::StringExecFns;

verus! {

/// `a` followed by `b`.
pub fn concat_str(a: &str, b: &str) -> (r: String)
    ensures
        r@ == a@ + b@,
{
    let mut r = String::from_str(a);
    r.append(b);
    r
}

/// Central application error type. Errors raised by outside libraries are
/// carried as the text those libraries render for them.
#[derive(Debug, Clone)]
pub enum AppError {
    /// A database error, as its driver rendered it.
    Database(String),
    /// A connection pool error, as rendered.
    DatabasePool(String),
    DatabaseMigration(String),
    /// A Kubernetes client error, as rendered.
    Kubernetes(String),
    KubernetesConfig(String),
    KubernetesNotFound(String),
    Webhook(String),
    WebSocket(String),
    Discord(String),
    Serenity(String),
    /// An HTTP client error, as rendered.
    Http(String),
    GraphQL(String),
    /// A JSON (de)serialization error, as rendered.
    Json(String),
    /// A YAML (de)serialization error, as rendered.
    Yaml(String),
    Config(String),
    /// An environment variable error, as rendered.
    EnvVar(String),
    Parse(String),
    /// A date/time parse error, as rendered.
    ChronoParse(String),
    /// An I/O error, as rendered.
    Io(String),
    Internal(String),
    NotFound(String),
    InvalidInput(String),
}

/// The text the error carries.
pub open spec fn error_detail(e: AppError) -> Seq<char> {
    match e {
        AppError::Database(m) => m@,
        AppError::DatabasePool(m) => m@,
        AppError::DatabaseMigration(m) => m@,
        AppError::Kubernetes(m) => m@,
        AppError::KubernetesConfig(m) => m@,
        AppError::KubernetesNotFound(m) => m@,
        AppError::Webhook(m) => m@,
        AppError::WebSocket(m) => m@,
        AppError::Discord(m) => m@,
        AppError::Serenity(m) => m@,
        AppError::Http(m) => m@,
        AppError::GraphQL(m) => m@,
        AppError::Json(m) => m@,
        AppError::Yaml(m) => m@,
        AppError::Config(m) => m@,
        AppError::EnvVar(m) => m@,
        AppError::Parse(m) => m@,
        AppError::ChronoParse(m) => m@,
        AppError::Io(m) => m@,
        AppError::Internal(m) => m@,
        AppError::NotFound(m) => m@,
        AppError::InvalidInput(m) => m@,
    }
}

/// What the rendered message says before the detail.
pub open spec fn error_label(e: AppError) -> Seq<char> {
    match e {
        AppError::Database(_) => "Database error: "@,
        AppError::DatabasePool(_) => "Database pool error: "@,
        AppError::DatabaseMigration(_) => "Database migration error: "@,
        AppError::Kubernetes(_) => "Kubernetes error: "@,
        AppError::KubernetesConfig(_) => "Kubernetes config error: "@,
        AppError::KubernetesNotFound(_) => "Kubernetes resource not found: "@,
        AppError::Webhook(_) => "Webhook error: "@,
        AppError::WebSocket(_) => "WebSocket error: "@,
        AppError::Discord(_) => "Discord error: "@,
        AppError::Serenity(_) => "Serenity error: "@,
        AppError::Http(_) => "HTTP request error: "@,
        AppError::GraphQL(_) => "GraphQL error: "@,
        AppError::Json(_) => "JSON error: "@,
        AppError::Yaml(_) => "YAML error: "@,
        AppError::Config(_) => "Configuration error: "@,
        AppError::EnvVar(_) => "Environment variable error: "@,
        AppError::Parse(_) => "Parse error: "@,
        AppError::ChronoParse(_) => "Chrono parse error: "@,
        AppError::Io(_) => "I/O error: "@,
        AppError::Internal(_) => "Internal error: "@,
        AppError::NotFound(_) => "Not found: "@,
        AppError::InvalidInput(_) => "Invalid input: "@,
    }
}

/// The HTTP status an error is answered with: 404 for what is missing, 400
/// for bad input, 502 for failures of upstream services, 500 otherwise.
pub open spec fn error_status(e: AppError) -> u16 {
    match e {
        AppError::Database(_) => 500,
        AppError::DatabasePool(_) => 500,
        AppError::DatabaseMigration(_) => 500,
        AppError::Kubernetes(_) => 500,
        AppError::KubernetesConfig(_) => 500,
        AppError::KubernetesNotFound(_) => 404,
        AppError::Webhook(_) => 502,
        AppError::WebSocket(_) => 500,
        AppError::Discord(_) => 500,
        AppError::Serenity(_) => 500,
        AppError::Http(_) => 502,
        AppError::GraphQL(_) => 500,
        AppError::Json(_) => 500,
        AppError::Yaml(_) => 500,
        AppError::Config(_) => 500,
        AppError::EnvVar(_) => 500,
        AppError::Parse(_) => 400,
        AppError::ChronoParse(_) => 500,
        AppError::Io(_) => 500,
        AppError::Internal(_) => 500,
        AppError::NotFound(_) => 404,
        AppError::InvalidInput(_) => 400,
    }
}

impl AppError {
    /// The HTTP status code this error is answered with.
    pub fn status_code(&self) -> (code: u16)
        ensures
            code == error_status(*self),
    {
        match self {
            AppError::Database(_) => 500,
            AppError::DatabasePool(_) => 500,
            AppError::DatabaseMigration(_) => 500,
            AppError::Kubernetes(_) => 500,
            AppError::KubernetesConfig(_) => 500,
            AppError::KubernetesNotFound(_) => 404,
            AppError::Webhook(_) => 502,
            AppError::WebSocket(_) => 500,
            AppError::Discord(_) => 500,
            AppError::Serenity(_) => 500,
            AppError::Http(_) => 502,
            AppError::GraphQL(_) => 500,
            AppError::Json(_) => 500,
            AppError::Yaml(_) => 500,
            AppError::Config(_) => 500,
            AppError::EnvVar(_) => 500,
            AppError::Parse(_) => 400,
            AppError::ChronoParse(_) => 500,
            AppError::Io(_) => 500,
            AppError::Internal(_) => 500,
            AppError::NotFound(_) => 404,
            AppError::InvalidInput(_) => 400,
        }
    }

    /// The error rendered for a person: a label naming the kind of
    /// failure, then its detail.
    pub fn message(&self) -> (m: String)
        ensures
            m@ == error_label(*self) + error_detail(*self),
    {
        match self {
            AppError::Database(d) => concat_str("Database error: ", d.as_str()),
            AppError::DatabasePool(d) => concat_str("Database pool error: ", d.as_str()),
            AppError::DatabaseMigration(d) => concat_str("Database migration error: ", d.as_str()),
            AppError::Kubernetes(d) => concat_str("Kubernetes error: ", d.as_str()),
            AppError::KubernetesConfig(d) => concat_str("Kubernetes config error: ", d.as_str()),
            AppError::KubernetesNotFound(d) => concat_str("Kubernetes resource not found: ", d.as_str()),
            AppError::Webhook(d) => concat_str("Webhook error: ", d.as_str()),
            AppError::WebSocket(d) => concat_str("WebSocket error: ", d.as_str()),
            AppError::Discord(d) => concat_str("Discord error: ", d.as_str()),
            AppError::Serenity(d) => concat_str("Serenity error: ", d.as_str()),
            AppError::Http(d) => concat_str("HTTP request error: ", d.as_str()),
            AppError::GraphQL(d) => concat_str("GraphQL error: ", d.as_str()),
            AppError::Json(d) => concat_str("JSON error: ", d.as_str()),
            AppError::Yaml(d) => concat_str("YAML error: ", d.as_str()),
            AppError::Config(d) => concat_str("Configuration error: ", d.as_str()),
            AppError::EnvVar(d) => concat_str("Environment variable error: ", d.as_str()),
            AppError::Parse(d) => concat_str("Parse error: ", d.as_str()),
            AppError::ChronoParse(d) => concat_str("Chrono parse error: ", d.as_str()),
            AppError::Io(d) => concat_str("I/O error: ", d.as_str()),
            AppError::Internal(d) => concat_str("Internal error: ", d.as_str()),
            AppError::NotFound(d) => concat_str("Not found: ", d.as_str()),
            AppError::InvalidInput(d) => concat_str("Invalid input: ", d.as_str()),
        }
    }
}

pub open spec fn caused_by_sep() -> Seq<char> {
    "\n  Caused by: "@
}

pub open spec fn string_views(v: Seq<String>) -> Seq<Seq<char>> {
    v.map_values(|s: String| s@)
}

/// An error and its causes, outermost first, one per line, each cause
/// introduced by `Caused by:`.
pub open spec fn spec_error_chain(chain: Seq<Seq<char>>) -> Seq<char>
    decreases chain.len(),
{
    if chain.len() == 0 {
        Seq::empty()
    } else if chain.len() == 1 {
        chain[0]
    } else {
        spec_error_chain(chain.drop_last()) + caused_by_sep() + chain.last()
    }
}

/// Formats an error and its entire source chain, given as the messages of
/// the error and of each of its sources in turn, with each on a new line:
///
/// ```text
/// Error message
///   Caused by: First cause
///   Caused by: Root cause
/// ```
pub fn format_error_chain(chain: &Vec<String>) -> (out: String)
    ensures
        out@ == spec_error_chain(string_views(chain@)),
{
    let ghost views = string_views(chain@);
    let mut out = String::new();
    let mut i: usize = 0;
    while i < chain.len()
        invariant
            i <= chain.len(),
            views == string_views(chain@),
            out@ == spec_error_chain(views.take(i as int)),
        decreases chain.len() - i,
    {
        proof {
            assert(views.take(i + 1).drop_last() =~= views.take(i as int));
            assert(views[i as int] == chain@[i as int]@);
        }
        if i == 0 {
            out.append(chain[i].as_str());
            assert(views.take(1) =~= seq![views[0]]);
        } else {
            out.append("\n  Caused by: ");
            out.append(chain[i].as_str());
        }
        i = i + 1;
    }
    assert(views.take(chain.len() as int) =~= views);
    out
}

/// Formats an error's chain the way [`format_error_chain`] does, for errors
/// whose chain is read from a context-carrying error: the first message,
/// then each cause on its own `Caused by:` line; nothing for an empty chain.
pub fn format_anyhow_chain(chain: &Vec<String>) -> (out: String)
    ensures
        out@ == spec_error_chain(string_views(chain@)),
{
    format_error_chain(chain)
}

} // verus!
