//! Gateway configuration: the server block, the configured upstreams
//! and the provider catalog seeds. Reading the file itself is left to
//! the shell around the library; the shapes and defaulting rules live
//! here.

use vstd::prelude::*;

pub use crate::subs::SubscriptionPreset;

verus! {

pub struct ServerConfig {
    pub bind: String,
    pub stdio_server: bool,
    pub auth_bearer: Option<String>,
    pub allow_origins: Vec<String>,
    pub database_url: Option<String>,
}

#[derive(Debug, PartialEq, Eq, Structural, Clone, Copy)]
pub enum UpstreamKind {
    Stdio,
    Http,
}

impl UpstreamKind {
    pub fn as_str(&self) -> (r: &'static str)
        ensures
            match self {
                UpstreamKind::Stdio => r@ == "stdio"@,
                UpstreamKind::Http => r@ == "http"@,
            },
    {
        match self {
            UpstreamKind::Stdio => "stdio",
            UpstreamKind::Http => "http",
        }
    }
}

pub struct UpstreamCommand {
    pub kind: UpstreamKind,
    pub command: Option<String>,
    pub args: Vec<String>,
    pub url: Option<String>,
    pub bearer: Option<String>,
    pub provider_slug: Option<String>,
}

pub struct Config {
    pub server: ServerConfig,
    pub upstreams: Vec<(String, UpstreamCommand)>,
    pub providers: Vec<ProviderSeed>,
}

pub struct ProviderSeed {
    pub slug: String,
    pub display_name: String,
    pub description: Option<String>,
}

impl Config {
    /// Fill the defaults a freshly loaded file may omit: at least one
    /// allowed origin, and a database location.
    pub fn with_defaults(self) -> (r: Config)
        ensures
            r.server.allow_origins@.len() > 0,
            old_spec_origins(self) ==> r.server.allow_origins@ == self.server.allow_origins@,
            !old_spec_origins(self) ==> r.server.allow_origins@.len() == 1
                && r.server.allow_origins@[0]@ == "http://localhost"@,
            self.server.database_url is Some ==> r.server.database_url
                == self.server.database_url,
            self.server.database_url is None ==> (r.server.database_url matches Some(u) && u@
                == "sqlite://mcp-router.db"@),
            r.server.bind == self.server.bind,
            r.server.stdio_server == self.server.stdio_server,
            r.server.auth_bearer == self.server.auth_bearer,
            r.upstreams == self.upstreams,
            r.providers == self.providers,
    {
        let Config { mut server, upstreams, providers } = self;
        if server.allow_origins.is_empty() {
            server.allow_origins.push("http://localhost".to_owned());
        }
        if server.database_url.is_none() {
            server.database_url = Some("sqlite://mcp-router.db".to_owned());
        }
        Config { server, upstreams, providers }
    }

    /// A small self-contained example configuration: two stdio
    /// upstreams and one catalog provider.
    pub fn example() -> (r: Config)
        ensures
            r.server.bind@ == "127.0.0.1:8848"@,
            !r.server.stdio_server,
            r.server.auth_bearer is None,
            r.server.allow_origins@.len() == 1 && r.server.allow_origins@[0]@
                == "http://localhost"@,
            (r.server.database_url matches Some(u) && u@ == "sqlite://mcp-router.db"@),
            r.upstreams@.len() == 2,
            r.upstreams@[0].0@ == "fs"@ && r.upstreams@[0].1.kind == UpstreamKind::Stdio && (
            r.upstreams@[0].1.command matches Some(c) && c@ == "./target/release/mcp-fs"@),
            r.upstreams@[0].1.args@.len() == 2 && r.upstreams@[0].1.args@[0]@ == "--root"@
                && r.upstreams@[0].1.args@[1]@ == "./"@,
            r.upstreams@[1].0@ == "web"@ && r.upstreams@[1].1.kind == UpstreamKind::Stdio && (
            r.upstreams@[1].1.command matches Some(c) && c@ == "./target/release/mcp-webfetch"@),
            r.upstreams@[1].1.args@.len() == 0,
            r.providers@.len() == 1 && r.providers@[0].slug@ == "openai"@
                && r.providers@[0].display_name@ == "OpenAI"@ && (
            r.providers@[0].description matches Some(d) && d@ == "OpenAI API"@),
    {
        let mut origins: Vec<String> = Vec::new();
        origins.push("http://localhost".to_owned());
        let server = ServerConfig {
            bind: "127.0.0.1:8848".to_owned(),
            stdio_server: false,
            auth_bearer: None,
            allow_origins: origins,
            database_url: Some("sqlite://mcp-router.db".to_owned()),
        };
        let mut fs_args: Vec<String> = Vec::new();
        fs_args.push("--root".to_owned());
        fs_args.push("./".to_owned());
        let mut upstreams: Vec<(String, UpstreamCommand)> = Vec::new();
        upstreams.push(
            (
                "fs".to_owned(),
                UpstreamCommand {
                    kind: UpstreamKind::Stdio,
                    command: Some("./target/release/mcp-fs".to_owned()),
                    args: fs_args,
                    url: None,
                    bearer: None,
                    provider_slug: None,
                },
            ),
        );
        upstreams.push(
            (
                "web".to_owned(),
                UpstreamCommand {
                    kind: UpstreamKind::Stdio,
                    command: Some("./target/release/mcp-webfetch".to_owned()),
                    args: Vec::new(),
                    url: None,
                    bearer: None,
                    provider_slug: None,
                },
            ),
        );
        let mut providers: Vec<ProviderSeed> = Vec::new();
        providers.push(
            ProviderSeed {
                slug: "openai".to_owned(),
                display_name: "OpenAI".to_owned(),
                description: Some("OpenAI API".to_owned()),
            },
        );
        Config { server, upstreams, providers }
    }
}

/// Whether a configuration already names an allowed origin.
pub open spec fn old_spec_origins(c: Config) -> bool {
    c.server.allow_origins@.len() > 0
}

} // verus!
