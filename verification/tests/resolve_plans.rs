use pinit_core::apply::EntryKind;
use pinit_core::config::{Config, GitProtocol, Source, TemplateDef};
use pinit_core::resolve::{
    checkout_args, clone_args, ensure_is_dir, fetch_args, git_failure, is_dot_git, join_path,
    origin_branch, resolve_template_def, template_dir_in_checkout, tries_origin_branch,
    ResolveError, TemplateLocation, TemplateResolver,
};

fn s(x: &str) -> String {
    x.to_string()
}

fn source(name: &str) -> Source {
    Source { name: s(name), path: None, repo: None, git_ref: None, git_protocol: None, subdir: None }
}

fn config() -> Config {
    let mut cfg = Config::default();
    let mut local = source("local");
    local.path = Some(s("/srv/templates"));
    let mut remote = source("remote");
    remote.repo = Some(s("acme/templates"));
    remote.git_protocol = Some(GitProtocol::Https);
    remote.git_ref = Some(s("v1"));
    remote.subdir = Some(s("sub"));
    let mut plain = source("plain");
    plain.repo = Some(s("ssh://host/repo.git"));
    let mut twice = source("local");
    twice.path = Some(s("/other"));
    cfg.sources = vec![local, remote, plain, source("empty"), twice];
    cfg.templates.insert(s("abs"), TemplateDef::Path(s("/abs/rust")));
    cfg.templates.insert(s("rel"), TemplateDef::Path(s("rust")));
    cfg.templates.insert(s("here"), TemplateDef::Detailed { source: Some(s("local")), path: s("rust") });
    cfg.templates.insert(s("there"), TemplateDef::Detailed { source: Some(s("remote")), path: s("rust") });
    cfg.templates.insert(s("plain"), TemplateDef::Detailed { source: Some(s("plain")), path: s("t") });
    cfg.templates.insert(s("lost"), TemplateDef::Detailed { source: Some(s("nowhere")), path: s("t") });
    cfg.templates.insert(s("empty"), TemplateDef::Detailed { source: Some(s("empty")), path: s("t") });
    cfg
}

#[test]
fn resolves_local_template_from_source_path() {
    let cfg = config();
    let resolver = TemplateResolver::new(s("/cache"));
    assert_eq!(resolver.cache_dir(), "/cache");
    assert!(matches!(
        resolver.resolve_template_dir(&cfg, "here"),
        Ok(TemplateLocation::Local(ref p)) if p == "/srv/templates/rust"
    ));
    assert!(matches!(
        resolver.resolve_template_dir(&cfg, "abs"),
        Ok(TemplateLocation::Local(ref p)) if p == "/abs/rust"
    ));
}

#[test]
fn template_definitions_resolve_or_say_why_not() {
    let cfg = config();
    let resolver = TemplateResolver::new(s("/cache"));
    match resolver.resolve_template_dir(&cfg, "there") {
        Ok(TemplateLocation::Git { repo, git_ref, subdir, path }) => {
            assert_eq!(repo, "https://github.com/acme/templates.git");
            assert_eq!(git_ref, "v1");
            assert_eq!(subdir.as_deref(), Some("sub"));
            assert_eq!(path, "rust");
        }
        other => panic!("unexpected {:?}", other),
    }
    match resolver.resolve_template_dir(&cfg, "plain") {
        Ok(TemplateLocation::Git { repo, git_ref, subdir, path }) => {
            assert_eq!(repo, "ssh://host/repo.git");
            assert_eq!(git_ref, "HEAD");
            assert_eq!(subdir, None);
            assert_eq!(path, "t");
        }
        other => panic!("unexpected {:?}", other),
    }
    assert!(matches!(
        resolver.resolve_template_dir(&cfg, "nope"),
        Err(ResolveError::UnknownTemplate(ref n)) if n == "nope"
    ));
    assert!(matches!(
        resolver.resolve_template_dir(&cfg, "rel"),
        Err(ResolveError::UnknownSource(ref m))
            if m == "template 'rel' uses a relative path but has no source"
    ));
    assert!(matches!(
        resolver.resolve_template_dir(&cfg, "lost"),
        Err(ResolveError::UnknownSource(ref m)) if m == "nowhere"
    ));
    assert!(matches!(
        resolver.resolve_template_dir(&cfg, "empty"),
        Err(ResolveError::SourceRepoMissing { ref source }) if source == "empty"
    ));
    let def = TemplateDef::Detailed { source: Some(s("local")), path: s("x/y") };
    assert!(matches!(
        resolve_template_def(&cfg, "any", &def),
        Ok(TemplateLocation::Local(ref p)) if p == "/srv/templates/x/y"
    ));
}

#[test]
fn recipes_resolve_to_their_templates_in_order() {
    let mut cfg = config();
    cfg.base_template = Some(s("abs"));
    let resolver = TemplateResolver::new(s("/cache"));
    let list = resolver.resolve_recipe_templates(&cfg, "here").unwrap();
    assert_eq!(list.len(), 2);
    assert_eq!((list[0].name.as_str(), list[0].index), ("abs", 0));
    assert_eq!((list[1].name.as_str(), list[1].index), ("here", 1));
    assert!(matches!(list[1].location, TemplateLocation::Local(ref p) if p == "/srv/templates/rust"));
    let dirs = resolver.resolve_recipe_template_dirs(&cfg, "here").unwrap();
    assert_eq!(dirs.len(), 2);
    assert!(matches!(dirs[0], TemplateLocation::Local(ref p) if p == "/abs/rust"));
    assert!(matches!(
        resolver.resolve_recipe_templates(&cfg, "missing"),
        Err(ResolveError::UnknownTemplate(ref n)) if n == "missing"
    ));
    assert!(matches!(
        resolver.resolve_recipe_template_dirs(&cfg, "rel"),
        Err(ResolveError::UnknownSource(_))
    ));
}

#[test]
fn paths_are_joined_as_paths_are() {
    assert_eq!(join_path("/a", "b"), "/a/b");
    assert_eq!(join_path("/a/", "b"), "/a/b");
    assert_eq!(join_path("/a", "/b"), "/b");
    assert_eq!(join_path("", "b"), "b");
    assert_eq!(join_path("a", ""), "a/");
    assert_eq!(template_dir_in_checkout("/c/repo", Some("sub"), "rust"), "/c/repo/sub/rust");
    assert_eq!(template_dir_in_checkout("/c/repo", None, "rust"), "/c/repo/rust");

    let resolver = TemplateResolver::new(s("/cache"));
    let dir = resolver.repo_dir("repo", "ref");
    let key = blake3::hash(b"repo\nref").to_hex().to_string();
    assert_eq!(dir, format!("/cache/repos/{key}/repo"));
}

#[test]
fn git_calls_and_their_failures() {
    assert_eq!(clone_args("r", "/c/repo"), vec!["clone", "r", "/c/repo"]);
    assert_eq!(fetch_args("/c/repo"), vec!["-C", "/c/repo", "fetch", "--tags", "--prune", "origin"]);
    assert_eq!(
        checkout_args("/c/repo", "v1"),
        vec!["-C", "/c/repo", "checkout", "--detach", "--force", "v1"]
    );
    assert!(tries_origin_branch("main"));
    assert!(!tries_origin_branch("origin/main"));
    assert!(!tries_origin_branch("deadbeef"));
    assert!(tries_origin_branch("deadbe"));
    assert_eq!(origin_branch("main"), "origin/main");
    match git_failure(&vec![s("clone"), s("r"), s("d")], Some(128), b"fatal: nope \xff\n") {
        ResolveError::GitCommandFailed { cmd, status, stderr } => {
            assert_eq!(cmd, "git clone r d");
            assert_eq!(status, 128);
            assert_eq!(stderr, "fatal: nope \u{fffd}");
        }
        other => panic!("unexpected {:?}", other),
    }
    match git_failure(&vec![], None, b"") {
        ResolveError::GitCommandFailed { cmd, status, .. } => {
            assert_eq!(cmd, "git ");
            assert_eq!(status, 1);
        }
        other => panic!("unexpected {:?}", other),
    }
    assert!(ensure_is_dir("/t", Some(EntryKind::Dir)).is_ok());
    for found in [None, Some(EntryKind::File), Some(EntryKind::Symlink), Some(EntryKind::Other)] {
        assert!(matches!(
            ensure_is_dir("/t", found),
            Err(ResolveError::TemplatePathNotDir(ref p)) if p == "/t"
        ));
    }
    assert!(is_dot_git("/repo/.git"));
    assert!(is_dot_git(".git/"));
    assert!(!is_dot_git("/repo/.github"));
}

#[test]
fn cache_key_is_the_hash_of_repo_line_feed_ref() {
    let key = pinit_core::resolve::cache_key("https://example.com/r.git", "v1.2.3");
    assert_eq!(key.len(), 64);
    assert!(key.chars().all(|c| c.is_ascii_digit() || ('a'..='f').contains(&c)));
    let direct = blake3::hash(b"https://example.com/r.git\nv1.2.3").to_hex().to_string();
    assert_eq!(key, direct);
    let empty = pinit_core::resolve::cache_key("", "");
    assert_eq!(empty, blake3::hash(b"\n").to_hex().to_string());
}

#[test]
fn errors_of_the_program_have_their_messages() {
    assert_eq!(
        ResolveError::NoHomeDir.message(),
        "could not determine a cache directory"
    );
    let e = ResolveError::Io {
        path: s("/cache/pinit"),
        source: s("permission denied"),
    };
    assert_eq!(e.message(), "/cache/pinit: permission denied");
    let e = pinit_core::config::ConfigError::Io {
        path: s("/etc/pinit.toml"),
        source: s("no such file"),
    };
    assert_eq!(e.message(), "/etc/pinit.toml: no such file");
}
