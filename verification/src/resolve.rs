//! Where the directory of a template lies: on disk, or in a checkout of a
//! repository that is kept in a cache directory.

use crate::apply::{strings, EntryKind};
use crate::chars;
use crate::config::{Config, GitProtocol, Source, TemplateDef, opt_text};
use crate::relpath;
use crate::text;
use vstd::prelude::*;
use vstd::slice::slice_to_vec;
use vstd::string::StringSliceAdditionalSpecFns;
use vstd::utf8::encode_utf8;

verus! {

/// Errors encountered while resolving template sources.
#[derive(Debug)]
pub enum ResolveError {
    NoHomeDir,
    UnknownTemplate(String),
    UnknownSource(String),
    TemplatePathNotDir(String),
    SourcePathMissing { source: String },
    SourceRepoMissing { source: String },
    GitCommandFailed { cmd: String, status: i32, stderr: String },
    Io { path: String, source: String },
}

/// An error as a mathematical value.
pub ghost enum ResolveErrorView {
    NoHomeDir,
    UnknownTemplate(Seq<char>),
    UnknownSource(Seq<char>),
    TemplatePathNotDir(Seq<char>),
    SourcePathMissing { source: Seq<char> },
    SourceRepoMissing { source: Seq<char> },
    GitCommandFailed { cmd: Seq<char>, status: i32, stderr: Seq<char> },
    Io { path: Seq<char>, source: Seq<char> },
}

impl View for ResolveError {
    type V = ResolveErrorView;

    open spec fn view(&self) -> ResolveErrorView {
        match self {
            ResolveError::NoHomeDir => ResolveErrorView::NoHomeDir,
            ResolveError::UnknownTemplate(n) => ResolveErrorView::UnknownTemplate(n@),
            ResolveError::UnknownSource(n) => ResolveErrorView::UnknownSource(n@),
            ResolveError::TemplatePathNotDir(p) => ResolveErrorView::TemplatePathNotDir(p@),
            ResolveError::SourcePathMissing { source } => ResolveErrorView::SourcePathMissing {
                source: source@,
            },
            ResolveError::SourceRepoMissing { source } => ResolveErrorView::SourceRepoMissing {
                source: source@,
            },
            ResolveError::GitCommandFailed { cmd, status, stderr } => {
                ResolveErrorView::GitCommandFailed { cmd: cmd@, status: *status, stderr: stderr@ }
            },
            ResolveError::Io { path, source } => ResolveErrorView::Io {
                path: path@,
                source: source@,
            },
        }
    }
}

/// The message of an error.
pub open spec fn resolve_error_text(e: ResolveErrorView) -> Seq<char> {
    match e {
        ResolveErrorView::NoHomeDir => "could not determine a cache directory"@,
        ResolveErrorView::UnknownTemplate(n) => "unknown template: "@ + n,
        ResolveErrorView::UnknownSource(n) => "unknown template source: "@ + n,
        ResolveErrorView::TemplatePathNotDir(p) => "template path is not a directory: "@ + p,
        ResolveErrorView::SourcePathMissing { source } => "source '"@ + source
            + "' is missing 'path'"@,
        ResolveErrorView::SourceRepoMissing { source } => "source '"@ + source
            + "' is missing 'repo'"@,
        ResolveErrorView::GitCommandFailed { cmd, status, stderr } => "git failed ("@
            + text::signed_decimal(status as int) + ") running "@ + cmd + ": "@ + stderr,
        ResolveErrorView::Io { path, source } => path + ": "@ + source,
    }
}

impl ResolveError {
    /// The message of the error.
    pub fn message(&self) -> (m: String)
        ensures
            m@ == resolve_error_text(self@),
    {
        let mut v: Vec<char> = Vec::new();
        match self {
            ResolveError::NoHomeDir => {
                chars::append_str(&mut v, "could not determine a cache directory");
            },
            ResolveError::UnknownTemplate(n) => {
                chars::append_str(&mut v, "unknown template: ");
                chars::append_str(&mut v, n.as_str());
            },
            ResolveError::UnknownSource(n) => {
                chars::append_str(&mut v, "unknown template source: ");
                chars::append_str(&mut v, n.as_str());
            },
            ResolveError::TemplatePathNotDir(p) => {
                chars::append_str(&mut v, "template path is not a directory: ");
                chars::append_str(&mut v, p.as_str());
            },
            ResolveError::SourcePathMissing { source } => {
                chars::append_str(&mut v, "source '");
                chars::append_str(&mut v, source.as_str());
                chars::append_str(&mut v, "' is missing 'path'");
            },
            ResolveError::SourceRepoMissing { source } => {
                chars::append_str(&mut v, "source '");
                chars::append_str(&mut v, source.as_str());
                chars::append_str(&mut v, "' is missing 'repo'");
            },
            ResolveError::GitCommandFailed { cmd, status, stderr } => {
                chars::append_str(&mut v, "git failed (");
                chars::append(&mut v, &chars::from_i64(*status as i64));
                chars::append_str(&mut v, ") running ");
                chars::append_str(&mut v, cmd.as_str());
                chars::append_str(&mut v, ": ");
                chars::append_str(&mut v, stderr.as_str());
            },
            ResolveError::Io { path, source } => {
                chars::append_str(&mut v, path.as_str());
                chars::append_str(&mut v, ": ");
                chars::append_str(&mut v, source.as_str());
            },
        }
        assert(v@ =~= resolve_error_text(self@));
        chars::to_string(&v)
    }
}

/// Resolved template entry with its name and local directory.
#[derive(Debug)]
pub struct ResolvedTemplate {
    pub name: String,
    pub dir: String,
    pub index: usize,
}

/// Where the directory of a template is to be had.
#[derive(Debug)]
pub enum TemplateLocation {
    /// A directory on disk.
    Local(String),
    /// The path `path`, below `subdir` if there is one, in a checkout of
    /// `repo` at `git_ref`.
    Git { repo: String, git_ref: String, subdir: Option<String>, path: String },
}

/// A location as a mathematical value.
pub ghost enum LocationView {
    Local(Seq<char>),
    Git { repo: Seq<char>, git_ref: Seq<char>, subdir: Option<Seq<char>>, path: Seq<char> },
}

impl View for TemplateLocation {
    type V = LocationView;

    open spec fn view(&self) -> LocationView {
        match self {
            TemplateLocation::Local(p) => LocationView::Local(p@),
            TemplateLocation::Git { repo, git_ref, subdir, path } => LocationView::Git {
                repo: repo@,
                git_ref: git_ref@,
                subdir: opt_text(*subdir),
                path: path@,
            },
        }
    }
}

/// A template of a recipe with its place in the stack and where its
/// directory is to be had.
#[derive(Debug)]
pub struct LocatedTemplate {
    pub name: String,
    pub location: TemplateLocation,
    pub index: usize,
}

/// The hexadecimal BLAKE3 hash of the bytes.
pub uninterp spec fn blake3_hex(input: Seq<u8>) -> Seq<char>;

/// `blake3::Hasher`: the hash of the input, from `new`, `update` and
/// `finalize`, written in lower-case hexadecimal by `Hash::to_hex`.
#[verifier::external_body]
fn blake3_of(input: &[u8]) -> (r: String)
    ensures
        r@ == blake3_hex(input@),
{
    let mut hasher = blake3::Hasher::new();
    hasher.update(input);
    hasher.finalize().to_hex().to_string()
}

/// What is hashed for a checkout: the repository, a line feed, the ref.
pub open spec fn cache_input(repo: Seq<char>, git_ref: Seq<char>) -> Seq<u8> {
    encode_utf8(repo).push(10u8) + encode_utf8(git_ref)
}

/// The name of the cache entry of a repository at a ref.
pub fn cache_key(repo: &str, git_ref: &str) -> (r: String)
    ensures
        r@ == blake3_hex(cache_input(repo@, git_ref@)),
{
    let mut input = slice_to_vec(repo.as_bytes());
    input.push(10u8);
    let tail = git_ref.as_bytes();
    let mut i: usize = 0;
    while i < tail.len()
        invariant
            i <= tail.len(),
            input@ == encode_utf8(repo@).push(10u8) + tail@.take(i as int),
        decreases tail.len() - i,
    {
        input.push(tail[i]);
        assert(input@ =~= encode_utf8(repo@).push(10u8) + tail@.take(i + 1));
        i += 1;
    }
    assert(tail@.take(tail.len() as int) =~= tail@);
    blake3_of(input.as_slice())
}

/// A word of at least seven hexadecimal digits: what may be a commit.
pub open spec fn hex_like(s: Seq<char>) -> bool {
    s.len() >= 7 && forall|i: int| 0 <= i < s.len() ==> text::is_ascii_hexdigit(#[trigger] s[i])
}

/// Whether a ref looks like a commit hash: seven or more hexadecimal digits.
pub fn looks_like_hex(s: &str) -> (r: bool)
    ensures
        r == hex_like(s@),
{
    let v = chars::from_str(s);
    if v.len() < 7 {
        return false;
    }
    let mut i: usize = 0;
    while i < v.len()
        invariant
            i <= v.len(),
            v@ == s@,
            forall|j: int| 0 <= j < i ==> text::is_ascii_hexdigit(#[trigger] v@[j]),
        decreases v.len() - i,
    {
        if !text::char_is_ascii_hexdigit(v[i]) {
            assert(!text::is_ascii_hexdigit(s@[i as int]));
            return false;
        }
        i += 1;
    }
    true
}

/// Letters, digits, `-`, `_` and `.` only.
pub open spec fn repo_component(s: Seq<char>) -> bool {
    forall|i: int|
        0 <= i < s.len() ==> text::is_ascii_alphanumeric(#[trigger] s[i]) || s[i] == '-' || s[i]
            == '_' || s[i] == '.'
}

/// Whether a text can be the owner or the name in `owner/name`: letters,
/// digits, `-`, `_` and `.` only.
pub fn is_repo_component(s: &Vec<char>) -> (r: bool)
    ensures
        r == repo_component(s@),
{
    let mut i: usize = 0;
    while i < s.len()
        invariant
            i <= s.len(),
            forall|j: int|
                0 <= j < i ==> text::is_ascii_alphanumeric(#[trigger] s@[j]) || s@[j] == '-'
                    || s@[j] == '_' || s@[j] == '.',
        decreases s.len() - i,
    {
        let c = s[i];
        if !(text::char_is_ascii_alphanumeric(c) || c == '-' || c == '_' || c == '.') {
            return false;
        }
        i += 1;
    }
    true
}

/// `owner/name` on GitHub: two components with a `/` between them, and
/// nothing that makes the text an address.
pub open spec fn github_shorthand(repo: Seq<char>) -> bool {
    let parts = text::split_char(repo, '/');
    &&& repo.len() > 0
    &&& !text::contains(repo, "://"@)
    &&& !text::contains(repo, ":"@)
    &&& !text::starts_with(repo, "git@"@)
    &&& !text::contains(repo, "\\"@)
    &&& parts.len() == 2
    &&& parts[0].len() > 0
    &&& parts[1].len() > 0
    &&& !text::ends_with(parts[1], ".git"@)
    &&& repo_component(parts[0])
    &&& repo_component(parts[1])
}

fn holds(v: &Vec<char>, s: &str) -> (r: bool)
    ensures
        r == text::contains(v@, s@),
{
    chars::contains(v, &chars::from_str(s))
}

/// Whether a repository is written as `owner/name`.
pub fn is_github_shorthand(repo: &str) -> (r: bool)
    ensures
        r == github_shorthand(repo@),
{
    let v = chars::from_str(repo);
    if v.len() == 0 || holds(&v, "://") || holds(&v, ":") || chars::starts_with(
        &v,
        &chars::from_str("git@"),
    ) || holds(&v, "\\") {
        return false;
    }
    let parts = chars::split_char(&v, '/');
    if parts.len() != 2 {
        return false;
    }
    assert(text::views(parts@)[0] == parts@[0]@);
    assert(text::views(parts@)[1] == parts@[1]@);
    let owner = &parts[0];
    let name = &parts[1];
    if owner.len() == 0 || name.len() == 0 || chars::ends_with(name, &chars::from_str(".git")) {
        return false;
    }
    is_repo_component(owner) && is_repo_component(name)
}

/// The address of a repository: for `owner/name` the address on GitHub by
/// the protocol, and any other text as it is.
pub open spec fn normalized_repo(repo: Seq<char>, protocol: GitProtocol) -> Seq<char> {
    if github_shorthand(repo) {
        match protocol {
            GitProtocol::Ssh => "git@github.com:"@ + repo + ".git"@,
            GitProtocol::Https => "https://github.com/"@ + repo + ".git"@,
        }
    } else {
        repo
    }
}

/// The address of a repository: for `owner/name`, its address at GitHub with
/// the protocol; any other text itself.
pub fn normalize_repo(repo: &str, protocol: GitProtocol) -> (r: String)
    ensures
        r@ == normalized_repo(repo@, protocol),
{
    if is_github_shorthand(repo) {
        let mut v = match protocol {
            GitProtocol::Ssh => chars::from_str("git@github.com:"),
            GitProtocol::Https => chars::from_str("https://github.com/"),
        };
        chars::append_str(&mut v, repo);
        chars::append_str(&mut v, ".git");
        chars::to_string(&v)
    } else {
        repo.to_owned()
    }
}

/// A path below a base: the path itself where it is absolute or the base
/// is empty; else the base, a `/` unless it ends in one, and the path.
pub open spec fn joined(base: Seq<char>, path: Seq<char>) -> Seq<char> {
    if relpath::is_absolute(path) || base.len() == 0 {
        path
    } else if base.last() == '/' {
        base + path
    } else {
        base.push('/') + path
    }
}

/// The path below a base directory: the path itself where it is absolute or
/// the base is empty.
pub fn join_path(base: &str, path: &str) -> (r: String)
    ensures
        r@ == joined(base@, path@),
{
    let b = chars::from_str(base);
    let p = chars::from_str(path);
    if relpath::path_is_absolute(&p) || b.len() == 0 {
        return path.to_owned();
    }
    let mut out = b;
    let n = out.len();
    if out[n - 1] != '/' {
        out.push('/');
    }
    chars::append(&mut out, &p);
    chars::to_string(&out)
}

/// The index of the first source from `from` on with the name, or the
/// number of sources.
pub open spec fn source_index(sources: Seq<Source>, name: Seq<char>, from: int) -> int
    decreases sources.len() - from,
{
    if 0 <= from < sources.len() && sources[from].name@ != name {
        source_index(sources, name, from + 1)
    } else {
        from
    }
}

fn find_source<'a>(sources: &'a Vec<Source>, name: &str) -> (r: Option<&'a Source>)
    ensures
        match r {
            Some(s) => 0 <= source_index(sources@, name@, 0) < sources@.len() && *s
                == sources@[source_index(sources@, name@, 0)],
            None => source_index(sources@, name@, 0) >= sources@.len(),
        },
{
    let key = chars::from_str(name);
    let mut i: usize = 0;
    while i < sources.len()
        invariant
            i <= sources.len(),
            key@ == name@,
            source_index(sources@, name@, 0) == source_index(sources@, name@, i as int),
        decreases sources.len() - i,
    {
        if chars::eq_str(&key, sources[i].name.as_str()) {
            return Some(&sources[i]);
        }
        i += 1;
    }
    None
}

/// The ref that is checked out where a source names none.
pub open spec fn ref_or_head(git_ref: Option<String>) -> Seq<char> {
    match git_ref {
        Some(r) => r@,
        None => "HEAD"@,
    }
}

/// The protocol of a source: SSH where it names none.
pub open spec fn protocol_or_ssh(p: Option<GitProtocol>) -> GitProtocol {
    match p {
        Some(p) => p,
        None => GitProtocol::Ssh,
    }
}

/// Where the directory of a template definition is to be had. An absolute
/// path is the directory. A relative path needs a source: one with a `path`
/// gives the directory below it; one with a `repo` gives a place in a
/// checkout.
pub open spec fn location_of(cfg: Config, template_name: Seq<char>, def: TemplateDef) -> Result<
    LocationView,
    ResolveErrorView,
> {
    if relpath::is_absolute(def.path_text()) {
        Ok(LocationView::Local(def.path_text()))
    } else {
        match def.source_text() {
            None => Err(
                ResolveErrorView::UnknownSource(
                    "template '"@ + template_name + "' uses a relative path but has no source"@,
                ),
            ),
            Some(name) => {
                let i = source_index(cfg.sources@, name, 0);
                if !(0 <= i < cfg.sources@.len()) {
                    Err(ResolveErrorView::UnknownSource(name))
                } else {
                    let source = cfg.sources@[i];
                    match (source.path, source.repo) {
                        (Some(root), _) => Ok(
                            LocationView::Local(joined(root@, def.path_text())),
                        ),
                        (None, None) => Err(
                            ResolveErrorView::SourceRepoMissing { source: source.name@ },
                        ),
                        (None, Some(repo)) => Ok(
                            LocationView::Git {
                                repo: normalized_repo(
                                    repo@,
                                    protocol_or_ssh(source.git_protocol),
                                ),
                                git_ref: ref_or_head(source.git_ref),
                                subdir: opt_text(source.subdir),
                                path: def.path_text(),
                            },
                        ),
                    }
                }
            },
        }
    }
}

/// Says where the directory of a template definition is to be had.
pub fn resolve_template_def(cfg: &Config, template_name: &str, def: &TemplateDef) -> (r: Result<
    TemplateLocation,
    ResolveError,
>)
    ensures
        match r {
            Ok(loc) => location_of(*cfg, template_name@, *def) == Ok::<
                LocationView,
                ResolveErrorView,
            >(loc@),
            Err(e) => location_of(*cfg, template_name@, *def) == Err::<
                LocationView,
                ResolveErrorView,
            >(e@),
        },
{
    let path = def.path();
    let p = chars::from_str(path);
    if relpath::path_is_absolute(&p) {
        return Ok(TemplateLocation::Local(path.to_owned()));
    }
    let source_name = match def.source() {
        Some(n) => n,
        None => {
            let mut m = chars::from_str("template '");
            chars::append_str(&mut m, template_name);
            chars::append_str(&mut m, "' uses a relative path but has no source");
            return Err(ResolveError::UnknownSource(chars::to_string(&m)));
        },
    };
    let source = match find_source(&cfg.sources, source_name) {
        Some(s) => s,
        None => {
            return Err(ResolveError::UnknownSource(source_name.to_owned()));
        },
    };
    match &source.path {
        Some(root) => {
            return Ok(TemplateLocation::Local(join_path(root.as_str(), path)));
        },
        None => {},
    }
    let repo = match &source.repo {
        Some(r) => r,
        None => {
            return Err(ResolveError::SourceRepoMissing { source: source.name.clone() });
        },
    };
    let protocol = match source.git_protocol {
        Some(p) => p,
        None => GitProtocol::Ssh,
    };
    let git_ref = match &source.git_ref {
        Some(r) => r.clone(),
        None => "HEAD".to_owned(),
    };
    Ok(
        TemplateLocation::Git {
            repo: normalize_repo(repo.as_str(), protocol),
            git_ref,
            subdir: crate::config::clone_text(&source.subdir),
            path: path.to_owned(),
        },
    )
}

/// The directory of a template in a checkout: the path below the subdir,
/// if there is one, below the root of the checkout.
pub open spec fn checkout_dir(root: Seq<char>, subdir: Option<Seq<char>>, path: Seq<char>) -> Seq<
    char,
> {
    match subdir {
        Some(s) => joined(joined(root, s), path),
        None => joined(root, path),
    }
}

/// The directory of a template in the checkout of its repository: below the
/// source's subdirectory, if it has one.
pub fn template_dir_in_checkout(repo_root: &str, subdir: Option<&str>, path: &str) -> (r: String)
    ensures
        r@ == checkout_dir(
            repo_root@,
            match subdir {
                Some(s) => Some(s@),
                None => None,
            },
            path@,
        ),
{
    match subdir {
        Some(s) => {
            let base = join_path(repo_root, s);
            join_path(base.as_str(), path)
        },
        None => join_path(repo_root, path),
    }
}

/// The directory of a template must be there, be no link and be a
/// directory.
pub fn ensure_is_dir(path: &str, found: Option<EntryKind>) -> (r: Result<(), ResolveError>)
    ensures
        match r {
            Ok(_) => found == Some(EntryKind::Dir),
            Err(e) => found != Some(EntryKind::Dir) && e@ == ResolveErrorView::TemplatePathNotDir(
                path@,
            ),
        },
{
    match found {
        Some(EntryKind::Dir) => Ok(()),
        _ => Err(ResolveError::TemplatePathNotDir(path.to_owned())),
    }
}

/// Whether a ref that could not be checked out is tried again as a branch
/// of `origin`: a ref with a `/` is not, nor is one that may be a commit.
pub fn tries_origin_branch(git_ref: &str) -> (r: bool)
    ensures
        r == (!text::contains(git_ref@, "/"@) && !hex_like(git_ref@)),
{
    let v = chars::from_str(git_ref);
    !holds(&v, "/") && !looks_like_hex(git_ref)
}

/// The ref of a branch of `origin`.
pub fn origin_branch(git_ref: &str) -> (r: String)
    ensures
        r@ == "origin/"@ + git_ref@,
{
    let mut v = chars::from_str("origin/");
    chars::append_str(&mut v, git_ref);
    chars::to_string(&v)
}

/// The command line of a git call, as errors show it.
pub open spec fn git_command(args: Seq<Seq<char>>) -> Seq<char> {
    "git "@ + text::join(args, " "@)
}

/// The error of a git call that did not succeed: its command line, its
/// status, or 1 where it has none, and its error output, trimmed.
pub fn git_failure(args: &Vec<String>, code: Option<i32>, stderr: &[u8]) -> (e: ResolveError)
    ensures
        e@ == (ResolveErrorView::GitCommandFailed {
            cmd: git_command(strings(args@)),
            status: crate::ignore::status_of(code),
            stderr: text::trim(text::lossy_text(stderr@)),
        }),
{
    let mut words: Vec<Vec<char>> = Vec::new();
    let mut i: usize = 0;
    while i < args.len()
        invariant
            i <= args.len(),
            words@.len() == i,
            forall|j: int| 0 <= j < i ==> (#[trigger] words@[j])@ == args@[j]@,
        decreases args.len() - i,
    {
        words.push(chars::from_str(args[i].as_str()));
        i += 1;
    }
    assert(text::views(words@) =~= strings(args@));
    let mut cmd = chars::from_str("git ");
    let line = chars::join(&words, &chars::from_str(" "));
    chars::append(&mut cmd, &line);
    let message = chars::trim(&chars::decode_lossy(stderr));
    ResolveError::GitCommandFailed {
        cmd: chars::to_string(&cmd),
        status: match code {
            Some(c) => c,
            None => 1,
        },
        stderr: chars::to_string(&message),
    }
}

/// Where the directory of a template of the configuration is to be had.
pub open spec fn template_location(cfg: Config, template_name: Seq<char>) -> Result<
    LocationView,
    ResolveErrorView,
> {
    match cfg.templates.value_of(template_name) {
        None => Err(ResolveErrorView::UnknownTemplate(template_name)),
        Some(def) => location_of(cfg, template_name, def),
    }
}

fn words3(a: &str, b: &str, c: &str) -> (r: Vec<String>)
    ensures
        strings(r@) == seq![a@, b@, c@],
{
    let mut v: Vec<String> = Vec::new();
    v.push(a.to_owned());
    v.push(b.to_owned());
    v.push(c.to_owned());
    assert(strings(v@) =~= seq![a@, b@, c@]);
    v
}

fn push_word(v: &mut Vec<String>, word: &str)
    ensures
        strings(final(v)@) == strings(old(v)@).push(word@),
{
    v.push(word.to_owned());
    assert(strings(v@) =~= strings(old(v)@).push(word@));
}

/// The arguments of the git call that clones a repository into the
/// directory of its checkout.
pub fn clone_args(repo: &str, repo_dir: &str) -> (r: Vec<String>)
    ensures
        strings(r@) == seq!["clone"@, repo@, repo_dir@],
{
    words3("clone", repo, repo_dir)
}

/// The arguments of the git call that brings a checkout up to date.
pub fn fetch_args(repo_dir: &str) -> (r: Vec<String>)
    ensures
        strings(r@) == seq!["-C"@, repo_dir@, "fetch"@, "--tags"@, "--prune"@, "origin"@],
{
    let mut v = words3("-C", repo_dir, "fetch");
    push_word(&mut v, "--tags");
    push_word(&mut v, "--prune");
    push_word(&mut v, "origin");
    assert(strings(v@) =~= seq!["-C"@, repo_dir@, "fetch"@, "--tags"@, "--prune"@, "origin"@]);
    v
}

/// The arguments of the git call that checks out a ref with a detached
/// head.
pub fn checkout_args(repo_dir: &str, git_ref: &str) -> (r: Vec<String>)
    ensures
        strings(r@) == seq!["-C"@, repo_dir@, "checkout"@, "--detach"@, "--force"@, git_ref@],
{
    let mut v = words3("-C", repo_dir, "checkout");
    push_word(&mut v, "--detach");
    push_word(&mut v, "--force");
    push_word(&mut v, git_ref);
    assert(strings(v@) =~= seq![
        "-C"@,
        repo_dir@,
        "checkout"@,
        "--detach"@,
        "--force"@,
        git_ref@,
    ]);
    v
}

/// Whether the last name of a path is `.git`.
pub fn is_dot_git(path: &str) -> (r: bool)
    ensures
        r == (relpath::file_name(path@) == Some(".git"@)),
{
    match relpath::path_file_name(&chars::from_str(path)) {
        Some(n) => chars::eq_str(&n, ".git"),
        None => false,
    }
}

/// Resolver for template directories with optional git-backed sources.
#[derive(Debug)]
pub struct TemplateResolver {
    cache_dir: String,
}

impl TemplateResolver {
    /// The cache directory as a text.
    pub closed spec fn cache(&self) -> Seq<char> {
        self.cache_dir@
    }

    /// Create a resolver using an explicit cache directory.
    pub fn new(cache_dir: String) -> (r: Self)
        ensures
            r.cache() == cache_dir@,
    {
        TemplateResolver { cache_dir }
    }

    /// Return the cache directory path.
    pub fn cache_dir(&self) -> (r: &str)
        ensures
            r@ == self.cache(),
    {
        self.cache_dir.as_str()
    }

    /// The directory of the checkout of a repository at a ref: `repo` in
    /// the directory named by the cache key, in `repos` below the cache
    /// directory.
    pub fn repo_dir(&self, repo: &str, git_ref: &str) -> (r: String)
        ensures
            r@ == joined(
                joined(joined(self.cache(), "repos"@), blake3_hex(cache_input(repo@, git_ref@))),
                "repo"@,
            ),
    {
        let key = cache_key(repo, git_ref);
        let repos = join_path(self.cache_dir.as_str(), "repos");
        let entry = join_path(repos.as_str(), key.as_str());
        join_path(entry.as_str(), "repo")
    }

    /// Resolve a single template name to where its directory is to be had.
    pub fn resolve_template_dir(&self, cfg: &Config, template_name: &str) -> (r: Result<
        TemplateLocation,
        ResolveError,
    >)
        ensures
            match r {
                Ok(loc) => template_location(*cfg, template_name@) == Ok::<
                    LocationView,
                    ResolveErrorView,
                >(loc@),
                Err(e) => template_location(*cfg, template_name@) == Err::<
                    LocationView,
                    ResolveErrorView,
                >(e@),
            },
    {
        match cfg.templates.get(template_name) {
            None => Err(ResolveError::UnknownTemplate(template_name.to_owned())),
            Some(def) => resolve_template_def(cfg, template_name, def),
        }
    }

    /// Resolve a recipe name to its templates, each with its place in the
    /// stack and where its directory is to be had. The first template that
    /// does not resolve gives the error.
    pub fn resolve_recipe_templates(&self, cfg: &Config, recipe_or_template: &str) -> (r: Result<
        Vec<LocatedTemplate>,
        ResolveError,
    >)
        ensures
            cfg.resolved(recipe_or_template@) is None ==> r is Err && r->Err_0@
                == ResolveErrorView::UnknownTemplate(recipe_or_template@),
            cfg.resolved(recipe_or_template@) matches Some(res) ==> match r {
                Ok(list) => list@.len() == res.templates.len() && forall|i: int|
                    0 <= i < list@.len() ==> (#[trigger] list@[i]).index == i && list@[i].name@
                        == res.templates[i] && template_location(*cfg, res.templates[i]) == Ok::<
                        LocationView,
                        ResolveErrorView,
                    >(list@[i].location@),
                Err(e) => exists|i: int|
                    0 <= i < res.templates.len() && template_location(
                        *cfg,
                        #[trigger] res.templates[i],
                    ) == Err::<LocationView, ResolveErrorView>(e@) && forall|j: int|
                        0 <= j < i ==> template_location(*cfg, #[trigger] res.templates[j]) is Ok,
            },
    {
        let resolved = match cfg.resolve_recipe(recipe_or_template) {
            Some(res) => res,
            None => {
                return Err(ResolveError::UnknownTemplate(recipe_or_template.to_owned()));
            },
        };
        let mut out: Vec<LocatedTemplate> = Vec::new();
        let mut i: usize = 0;
        while i < resolved.templates.len()
            invariant
                i <= resolved.templates.len(),
                out@.len() == i,
                cfg.resolved(recipe_or_template@) == Some(resolved@),
                forall|j: int|
                    0 <= j < i ==> (#[trigger] out@[j]).index == j && out@[j].name@
                        == resolved.templates@[j]@ && template_location(
                        *cfg,
                        resolved.templates@[j]@,
                    ) == Ok::<LocationView, ResolveErrorView>(out@[j].location@),
            decreases resolved.templates.len() - i,
        {
            let name = resolved.templates[i].clone();
            assert(resolved@.templates[i as int] == name@);
            let location = match self.resolve_template_dir(cfg, name.as_str()) {
                Ok(l) => l,
                Err(e) => {
                    assert forall|j: int| 0 <= j < i implies template_location(
                        *cfg,
                        #[trigger] resolved@.templates[j],
                    ) is Ok by {
                        assert(out@[j].index == j);
                    }
                    return Err(e);
                },
            };
            out.push(LocatedTemplate { name, location, index: i });
            i += 1;
        }
        assert forall|j: int| 0 <= j < out@.len() implies (#[trigger] out@[j]).index == j
            && out@[j].name@ == resolved@.templates[j] && template_location(
            *cfg,
            resolved@.templates[j],
        ) == Ok::<LocationView, ResolveErrorView>(out@[j].location@) by {
            assert(resolved@.templates[j] == resolved.templates@[j]@);
        }
        Ok(out)
    }

    /// Resolve a recipe name to where the directories of its templates are
    /// to be had, in the order of the stack. The first template that does
    /// not resolve gives the error.
    pub fn resolve_recipe_template_dirs(&self, cfg: &Config, recipe_or_template: &str) -> (r:
        Result<Vec<TemplateLocation>, ResolveError>)
        ensures
            cfg.resolved(recipe_or_template@) is None ==> r is Err && r->Err_0@
                == ResolveErrorView::UnknownTemplate(recipe_or_template@),
            cfg.resolved(recipe_or_template@) matches Some(res) ==> match r {
                Ok(list) => list@.len() == res.templates.len() && forall|i: int|
                    0 <= i < list@.len() ==> template_location(*cfg, res.templates[i]) == Ok::<
                        LocationView,
                        ResolveErrorView,
                    >((#[trigger] list@[i])@),
                Err(e) => exists|i: int|
                    0 <= i < res.templates.len() && template_location(
                        *cfg,
                        #[trigger] res.templates[i],
                    ) == Err::<LocationView, ResolveErrorView>(e@) && forall|j: int|
                        0 <= j < i ==> template_location(*cfg, #[trigger] res.templates[j]) is Ok,
            },
    {
        let entries = match self.resolve_recipe_templates(cfg, recipe_or_template) {
            Ok(e) => e,
            Err(e) => {
                return Err(e);
            },
        };
        let mut entries = entries;
        let mut out: Vec<TemplateLocation> = Vec::new();
        let ghost all = entries@;
        while entries.len() > 0
            invariant
                out@.len() + entries@.len() == all.len(),
                forall|j: int| 0 <= j < out@.len() ==> (#[trigger] out@[j]) == all[j].location,
                forall|j: int|
                    0 <= j < entries@.len() ==> (#[trigger] entries@[j]) == all[out@.len() + j],
            decreases entries.len(),
        {
            let e = entries.remove(0);
            out.push(e.location);
        }
        Ok(out)
    }
}

} // verus!
