//! Configuration: the file's settings, their defaults and the command-line
//! values that override them.
use vstd::prelude::*;
use crate::text::{chars_of, decimal, decimal_chars, extend_chars, join_path, join_path_chars, string_of};

verus! {

/// Settings of the downloader.
#[derive(Debug)]
pub struct DownloadConfig {
    pub concurrency: usize,
    pub ignored_mime_types: Vec<String>,
}

/// Settings of the server.
#[derive(Debug)]
pub struct ServeConfig {
    pub port: u16,
    pub host: Option<String>,
}

/// All settings; `root` is the data directory.
#[derive(Debug)]
pub struct Config {
    pub root: String,
    pub download: DownloadConfig,
    pub serve: ServeConfig,
}

/// Values given on the command line that replace the configured ones.
#[derive(Debug)]
pub struct ConfigOverride {
    pub root: Option<String>,
    pub download_concurrency: Option<usize>,
    pub serve_port: Option<u16>,
    pub serve_host: Option<String>,
}

/// Arguments of `download`.
#[derive(Clone, Debug)]
pub struct DownloadArgs {
    pub url: String,
    /// Timestamp to search from
    pub from: Option<String>,
    /// Timestamp to search to
    pub to: Option<String>,
    /// Number of concurrent downloads.
    pub concurrency: Option<usize>,
}

/// Arguments of `serve`.
#[derive(Clone, Debug)]
pub struct ServeArgs {
    /// Port to serve the downloaded website and manager.
    pub port: Option<u16>,
    /// Hostname used to rewrite links when serving the downloaded site.
    pub host: Option<String>,
}

/// The subcommands.
#[derive(Clone, Debug)]
pub enum Commands {
    /// Download website from the Wayback Machine
    Download(DownloadArgs),
    /// Launch the website and manager
    Serve(ServeArgs),
    /// Remove database entry that is not found in the filesystem.
    FixDb,
    /// View config.
    Config,
}

/// The command line.
#[derive(Clone, Debug)]
pub struct Cli {
    pub command: Commands,
    /// Directory to save the downloaded files.
    pub root_dir: Option<String>,
    /// Skip migration.
    pub skip_migration: bool,
}

/// The overrides a command line carries: the data directory always, the
/// concurrency for `download`, port and host for `serve`.
pub open spec fn overrides_of(cli: Cli) -> ConfigOverride {
    ConfigOverride {
        root: cli.root_dir,
        download_concurrency: match cli.command {
            Commands::Download(a) => a.concurrency,
            _ => None,
        },
        serve_port: match cli.command {
            Commands::Serve(a) => a.port,
            _ => None,
        },
        serve_host: match cli.command {
            Commands::Serve(a) => a.host,
            _ => None,
        },
    }
}

/// The settings `c` with the overrides `o` put in.
pub open spec fn merged(c: Config, o: ConfigOverride) -> Config {
    Config {
        root: match o.root { Some(v) => v, None => c.root },
        download: DownloadConfig {
            concurrency: match o.download_concurrency { Some(v) => v, None => c.download.concurrency },
            ignored_mime_types: c.download.ignored_mime_types,
        },
        serve: ServeConfig {
            port: match o.serve_port { Some(v) => v, None => c.serve.port },
            host: match o.serve_host { Some(h) => Some(h), None => c.serve.host },
        },
    }
}

/// Config load strategy: the values of the configuration file (or its
/// defaults) are used, except those given on the command line: a data
/// directory always, the concurrency of `download`, the port of `serve`;
/// the host of `serve` where one is given, the file's host otherwise.
pub proof fn law_command_line_overrides(file: Config, cli: Cli)
    ensures
        ({
            let c = merged(file, overrides_of(cli));
            &&& c.root == (match cli.root_dir { Some(r) => r, None => file.root })
            &&& c.download.concurrency == (match cli.command {
                Commands::Download(a) => match a.concurrency { Some(n) => n, None => file.download.concurrency },
                _ => file.download.concurrency,
            })
            &&& c.download.ignored_mime_types == file.download.ignored_mime_types
            &&& c.serve.port == (match cli.command {
                Commands::Serve(a) => match a.port { Some(p) => p, None => file.serve.port },
                _ => file.serve.port,
            })
            &&& c.serve.host == (match cli.command {
                Commands::Serve(a) => match a.host { Some(h) => Some(h), None => file.serve.host },
                _ => file.serve.host,
            })
        }),
{
}

/// The MIME types that the downloader skips unless configured otherwise.
pub open spec fn default_ignored_mime_types() -> Seq<Seq<char>> {
    seq!["application/zip"@]
}

impl Default for DownloadConfig {
    /// One download at a time; ZIP archives are skipped.
    fn default() -> (r: Self)
        ensures
            r.concurrency == 1,
            r.ignored_mime_types.deep_view() == default_ignored_mime_types(),
    {
        let mut ignored: Vec<String> = Vec::new();
        ignored.push(String::from_str("application/zip"));
        assert(ignored.deep_view() =~= default_ignored_mime_types());
        DownloadConfig { concurrency: 1, ignored_mime_types: ignored }
    }
}

impl Default for ServeConfig {
    /// Port 3000, host derived from the port.
    fn default() -> (r: Self)
        ensures
            r.port == 3000,
            r.host is None,
    {
        ServeConfig { port: 3000, host: None }
    }
}

/// The host the server calls itself when no host is configured.
pub open spec fn default_host(port: u16) -> Seq<char> {
    "localhost:"@ + decimal(port as nat)
}

impl Config {
    /// The default settings, with `root` as data directory.
    pub fn with_root(root: String) -> (r: Config)
        ensures
            r.root == root,
            r.download.concurrency == 1,
            r.download.ignored_mime_types.deep_view() == default_ignored_mime_types(),
            r.serve.port == 3000,
            r.serve.host is None,
    {
        Config { root, download: DownloadConfig::default(), serve: ServeConfig::default() }
    }

    /// The directory the downloaded pages are saved in: `downloads` in the
    /// data directory.
    pub fn download_dir(&self) -> (r: String)
        ensures
            r@ == join_path(self.root@, "downloads"@),
    {
        let d = join_path_chars(&chars_of(self.root.as_str()), &chars_of("downloads"));
        string_of(&d)
    }

    /// The settings with the command-line values put in: a given data
    /// directory, concurrency, port or host replaces the configured one.
    pub fn apply_override(self, or: ConfigOverride) -> (r: Config)
        ensures
            r == merged(self, or),
            r.root == (match or.root { Some(v) => v, None => self.root }),
            r.download.concurrency == (match or.download_concurrency {
                Some(v) => v,
                None => self.download.concurrency,
            }),
            r.download.ignored_mime_types == self.download.ignored_mime_types,
            r.serve.port == (match or.serve_port { Some(v) => v, None => self.serve.port }),
            r.serve.host == (match or.serve_host { Some(h) => Some(h), None => self.serve.host }),
    {
        let mut config = self;
        if let Some(v) = or.root {
            config.root = v;
        }
        if let Some(v) = or.download_concurrency {
            config.download.concurrency = v;
        }
        if let Some(v) = or.serve_port {
            config.serve.port = v;
        }
        if let Some(h) = or.serve_host {
            config.serve.host = Some(h);
        }
        config
    }
}

impl ServeConfig {
    /// The host the server is reached at: the configured one, or
    /// `localhost:<port>`.
    pub fn get_host(&self) -> (r: String)
        ensures
            r@ == match self.host {
                Some(h) => h@,
                None => default_host(self.port),
            },
    {
        match &self.host {
            Some(h) => h.clone(),
            None => {
                let mut r = chars_of("localhost:");
                extend_chars(&mut r, &decimal_chars(self.port as u64));
                string_of(&r)
            },
        }
    }
}

impl ConfigOverride {
    /// The overrides a command line carries: the data directory always, the
    /// concurrency for `download`, port and host for `serve`.
    pub fn from_cli(cli: Cli) -> (r: ConfigOverride)
        ensures
            r == overrides_of(cli),
            r.root == cli.root_dir,
            r.download_concurrency == (match cli.command {
                Commands::Download(a) => a.concurrency,
                _ => None,
            }),
            r.serve_port == (match cli.command {
                Commands::Serve(a) => a.port,
                _ => None,
            }),
            r.serve_host == (match cli.command {
                Commands::Serve(a) => a.host,
                _ => None,
            }),
    {
        let mut r = ConfigOverride {
            root: cli.root_dir,
            download_concurrency: None,
            serve_port: None,
            serve_host: None,
        };
        match cli.command {
            Commands::Download(args) => {
                r.download_concurrency = args.concurrency;
            },
            Commands::Serve(args) => {
                r.serve_port = args.port;
                r.serve_host = args.host;
            },
            _ => {},
        }
        r
    }
}

/// The SQLite database in the data directory `root`.
pub fn database_url(root: &str) -> (r: String)
    ensures
        r@ == "sqlite://"@ + root@ + "/db.sqlite?mode=rwc"@,
{
    let mut r = String::from_str("sqlite://");
    r.append(root);
    r.append("/db.sqlite?mode=rwc");
    r
}

} // verus!
