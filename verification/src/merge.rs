//! Content merges, one per kind of file.
//!
//! A merge takes the bytes of the destination file and of the template file
//! and gives the merged bytes, or nothing where the files cannot be merged.
//! Every merge only adds: what stands in the destination stays.

pub mod append;
pub mod css;
pub mod env;
pub mod html;
pub mod lines;
pub mod markdown;
pub mod source;
pub mod syntax;
pub mod toml;
pub mod yaml;

use crate::chars;
use crate::merge::syntax::Grammar;
use crate::relpath;
use crate::text;
use vstd::prelude::*;
use vstd::utf8::valid_utf8;

verus! {

/// The ways to merge a file.
#[derive(Clone, Copy, Debug, PartialEq, Eq)]
pub enum Strategy {
    Envrc,
    Env,
    Toml,
    Yaml,
    Source(Grammar),
    Css,
    Markdown,
    Html,
    Lines,
}

/// The strategy for an extension in lower case.
pub open spec fn strategy_of_extension(ext: Seq<char>) -> Strategy {
    if ext == "toml"@ {
        Strategy::Toml
    } else if ext == "yml"@ || ext == "yaml"@ {
        Strategy::Yaml
    } else if ext == "rs"@ {
        Strategy::Source(Grammar::Rust)
    } else if ext == "php"@ {
        Strategy::Source(Grammar::Php)
    } else if ext == "py"@ {
        Strategy::Source(Grammar::Python)
    } else if ext == "js"@ || ext == "mjs"@ || ext == "cjs"@ {
        Strategy::Source(Grammar::JavaScript)
    } else if ext == "ts"@ {
        Strategy::Source(Grammar::TypeScript)
    } else if ext == "tsx"@ {
        Strategy::Source(Grammar::Tsx)
    } else if ext == "css"@ {
        Strategy::Css
    } else if ext == "md"@ || ext == "markdown"@ {
        Strategy::Markdown
    } else if ext == "lua"@ {
        Strategy::Source(Grammar::Lua)
    } else if ext == "sh"@ || ext == "bash"@ {
        Strategy::Source(Grammar::Bash)
    } else if ext == "zsh"@ {
        Strategy::Source(Grammar::Zsh)
    } else if ext == "rb"@ {
        Strategy::Source(Grammar::Ruby)
    } else if ext == "html"@ || ext == "htm"@ {
        Strategy::Html
    } else {
        Strategy::Lines
    }
}

/// The strategy for a path: by the file's name for `.envrc`, `.env` and
/// `.env.*`, else by its extension without regard to case.
pub open spec fn strategy_of(path: Seq<char>) -> Strategy {
    let name = match relpath::file_name(path) {
        Some(n) => n,
        None => Seq::empty(),
    };
    let ext = match relpath::extension(path) {
        Some(e) => e,
        None => Seq::empty(),
    };
    if name == ".envrc"@ {
        Strategy::Envrc
    } else if name == ".env"@ || text::starts_with(name, ".env."@) {
        Strategy::Env
    } else {
        strategy_of_extension(text::to_ascii_lowercase(ext))
    }
}

/// What a strategy gives for two files. The YAML merge is not among them:
/// where it changes the document, its bytes are those that the YAML emitter
/// writes; `merge_allows` says what holds of it.
pub open spec fn merged_by(strategy: Strategy, dest: Seq<u8>, src: Seq<u8>) -> Option<Seq<u8>> {
    match strategy {
        Strategy::Envrc => env::merged_envrc(dest, src),
        Strategy::Env => env::merged_env(dest, src),
        Strategy::Toml => toml::merged_toml(dest, src),
        Strategy::Yaml => None,
        Strategy::Source(g) => source::merged_source(g, dest, src),
        Strategy::Css => css::merged_css(dest, src),
        Strategy::Markdown => markdown::merged_markdown(dest, src),
        Strategy::Html => html::merged_html(dest, src),
        Strategy::Lines => lines::merged_lines(dest, src),
    }
}

fn extension_strategy(ext: &Vec<char>) -> (s: Strategy)
    ensures
        s == strategy_of_extension(ext@),
{
    if chars::eq_str(ext, "toml") {
        Strategy::Toml
    } else if chars::eq_str(ext, "yml") || chars::eq_str(ext, "yaml") {
        Strategy::Yaml
    } else if chars::eq_str(ext, "rs") {
        Strategy::Source(Grammar::Rust)
    } else if chars::eq_str(ext, "php") {
        Strategy::Source(Grammar::Php)
    } else if chars::eq_str(ext, "py") {
        Strategy::Source(Grammar::Python)
    } else if chars::eq_str(ext, "js") || chars::eq_str(ext, "mjs") || chars::eq_str(ext, "cjs") {
        Strategy::Source(Grammar::JavaScript)
    } else if chars::eq_str(ext, "ts") {
        Strategy::Source(Grammar::TypeScript)
    } else if chars::eq_str(ext, "tsx") {
        Strategy::Source(Grammar::Tsx)
    } else if chars::eq_str(ext, "css") {
        Strategy::Css
    } else if chars::eq_str(ext, "md") || chars::eq_str(ext, "markdown") {
        Strategy::Markdown
    } else if chars::eq_str(ext, "lua") {
        Strategy::Source(Grammar::Lua)
    } else if chars::eq_str(ext, "sh") || chars::eq_str(ext, "bash") {
        Strategy::Source(Grammar::Bash)
    } else if chars::eq_str(ext, "zsh") {
        Strategy::Source(Grammar::Zsh)
    } else if chars::eq_str(ext, "rb") {
        Strategy::Source(Grammar::Ruby)
    } else if chars::eq_str(ext, "html") || chars::eq_str(ext, "htm") {
        Strategy::Html
    } else {
        Strategy::Lines
    }
}

/// The strategy by which a file at this path is merged.
pub fn merge_strategy(rel_path: &str) -> (s: Strategy)
    ensures
        s == strategy_of(rel_path@),
{
    let path = chars::from_str(rel_path);
    let name = match relpath::path_file_name(&path) {
        Some(n) => n,
        None => Vec::new(),
    };
    if chars::eq_str(&name, ".envrc") {
        return Strategy::Envrc;
    }
    let dot_env = chars::from_str(".env.");
    if chars::eq_str(&name, ".env") || chars::starts_with(&name, &dot_env) {
        return Strategy::Env;
    }
    let ext = match relpath::path_extension(&path) {
        Some(e) => e,
        None => Vec::new(),
    };
    let lower = chars::to_ascii_lowercase(&ext);
    extension_strategy(&lower)
}

/// What merging may give for the file at a path: for YAML what
/// `yaml_merge_allows` says, for every other file exactly what `merged_by`
/// gives for the path's strategy.
pub open spec fn merge_allows(
    path: Seq<char>,
    dest: Seq<u8>,
    src: Seq<u8>,
    merged: Option<Seq<u8>>,
) -> bool {
    if strategy_of(path) == Strategy::Yaml {
        yaml::yaml_merge_allows(dest, src, merged)
    } else {
        merged == merged_by(strategy_of(path), dest, src)
    }
}

/// Merges the template file into the destination file at a relative path.
///
/// The strategy is chosen by the path. Nothing is given where the strategy
/// cannot merge the two files: where one of them is not UTF-8, or does not
/// parse. Except for YAML, the merged bytes are those that `merged_by`
/// states; a YAML file to which the template adds nothing comes back as it
/// is.
pub fn merge_file(rel_path: &str, dest_bytes: &[u8], src_bytes: &[u8]) -> (r: Option<Vec<u8>>)
    ensures
        merge_allows(
            rel_path@,
            dest_bytes@,
            src_bytes@,
            match r {
                Some(out) => Some(out@),
                None => None,
            },
        ),
        r is Some ==> valid_utf8(dest_bytes@) && valid_utf8(src_bytes@),
{
    match merge_strategy(rel_path) {
        Strategy::Envrc => env::merge_envrc(dest_bytes, src_bytes),
        Strategy::Env => env::merge_env(dest_bytes, src_bytes),
        Strategy::Toml => toml::merge_toml(dest_bytes, src_bytes),
        Strategy::Yaml => yaml::merge_yaml(dest_bytes, src_bytes),
        Strategy::Source(g) => source::merge_source(g, dest_bytes, src_bytes),
        Strategy::Css => css::merge_css(dest_bytes, src_bytes),
        Strategy::Markdown => markdown::merge_markdown(dest_bytes, src_bytes),
        Strategy::Html => html::merge_html(dest_bytes, src_bytes),
        Strategy::Lines => lines::merge_lines(dest_bytes, src_bytes),
    }
}

} // verus!
