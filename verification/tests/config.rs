use archivehost::config::{database_url, Cli, Commands, Config, ConfigOverride, DownloadArgs, DownloadConfig, ServeArgs, ServeConfig};

#[test]
fn defaults() {
    let d = DownloadConfig::default();
    assert_eq!(d.concurrency, 1);
    assert_eq!(d.ignored_mime_types, vec!["application/zip".to_string()]);
    let s = ServeConfig::default();
    assert_eq!(s.port, 3000);
    assert_eq!(s.host, None);
    let c = Config::with_root("/data".to_string());
    assert_eq!(c.root, "/data");
    assert_eq!(c.serve.port, 3000);
}

#[test]
fn host_defaults_to_localhost_and_port() {
    let s = ServeConfig { port: 3000, host: None };
    assert_eq!(s.get_host(), "localhost:3000");
    let s = ServeConfig { port: 0, host: None };
    assert_eq!(s.get_host(), "localhost:0");
    let s = ServeConfig { port: 65535, host: None };
    assert_eq!(s.get_host(), "localhost:65535");
    let s = ServeConfig { port: 80, host: Some("archive.local".to_string()) };
    assert_eq!(s.get_host(), "archive.local");
}

#[test]
fn download_dir_joins_like_pathbuf() {
    for root in ["/data", "/data/", "", "rel", "/"] {
        let c = Config::with_root(root.to_string());
        let expected = std::path::Path::new(root).join("downloads").to_string_lossy().to_string();
        assert_eq!(c.download_dir(), expected, "root {:?}", root);
    }
}

#[test]
fn overrides_replace_given_values() {
    let c = Config::with_root("/data".to_string());
    let c = c.apply_override(ConfigOverride {
        root: Some("/other".to_string()),
        download_concurrency: Some(4),
        serve_port: None,
        serve_host: Some("h".to_string()),
    });
    assert_eq!(c.root, "/other");
    assert_eq!(c.download.concurrency, 4);
    assert_eq!(c.serve.port, 3000);
    assert_eq!(c.serve.host.as_deref(), Some("h"));
    let mut base = Config::with_root("/data".to_string());
    base.serve.host = Some("configured".to_string());
    let c = base.apply_override(ConfigOverride { root: None, download_concurrency: None, serve_port: Some(8080), serve_host: None });
    assert_eq!(c.root, "/data");
    assert_eq!(c.download.concurrency, 1);
    assert_eq!(c.serve.port, 8080);
    assert_eq!(c.serve.host.as_deref(), Some("configured"));
}

#[test]
fn overrides_from_cli() {
    let cli = Cli {
        command: Commands::Download(DownloadArgs { url: "u".to_string(), from: None, to: None, concurrency: Some(3) }),
        root_dir: Some("/r".to_string()),
        skip_migration: false,
    };
    let o = ConfigOverride::from_cli(cli);
    assert_eq!(o.root.as_deref(), Some("/r"));
    assert_eq!(o.download_concurrency, Some(3));
    assert_eq!(o.serve_port, None);
    let cli = Cli { command: Commands::Serve(ServeArgs { port: Some(1), host: Some("h".to_string()) }), root_dir: None, skip_migration: true };
    let o = ConfigOverride::from_cli(cli);
    assert_eq!(o.root, None);
    assert_eq!(o.download_concurrency, None);
    assert_eq!(o.serve_port, Some(1));
    assert_eq!(o.serve_host.as_deref(), Some("h"));
    let o = ConfigOverride::from_cli(Cli { command: Commands::FixDb, root_dir: None, skip_migration: false });
    assert_eq!(o.serve_host, None);
    assert_eq!(o.download_concurrency, None);
}

#[test]
fn database_location() {
    assert_eq!(database_url("/data"), "sqlite:///data/db.sqlite?mode=rwc");
}
