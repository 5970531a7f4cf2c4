//! Prompt selection and message text processing for model requests.

use vstd::prelude::*;
use crate::text::{lowered, all_ascii, ascii_lower, 
    chars_of, find_first, find_from, find_vec, lemma_find_from, string_of, to_lowercase, trim,
    trim_bounds, string_of_range, vec_eq_str, vec_starts_with_str, has_prefix, occurs_at,
};
use crate::path::{extension_of, file_name_of, extension_vec, file_name_vec};
use crate::path_policy::{PathValidationError, path_error_text};
use crate::config::Config;
use crate::agent::agent_lookup;
use crate::text::{join, join_strings};

verus! {

/// `s` with every complete `open ... close` block removed, scanning from the left:
/// the first `open` is paired with the first `close` at or after it; an `open`
/// with no `close` after it ends the scan.
pub open spec fn strip_blocks(s: Seq<char>, open: Seq<char>, close: Seq<char>) -> Seq<char>
    decreases s.len(),
{
    if close.len() == 0 {
        s
    } else {
        match find_first(s, open) {
            None => s,
            Some(st) => match find_from(s, close, st) {
                None => s,
                Some(e) => {
                    proof {
                        lemma_find_from(s, open, 0);
                        lemma_find_from(s, close, st);
                    }
                    strip_blocks(s.take(st) + s.skip(e + close.len()), open, close)
                },
            },
        }
    }
}

/// No `open` in `s` is followed by a `close`.
pub open spec fn no_complete_block(s: Seq<char>, open: Seq<char>, close: Seq<char>) -> bool {
    match find_first(s, open) {
        None => true,
        Some(st) => find_from(s, close, st) is None,
    }
}

/// What `strip_reasoning_blocks` returns for `s`.
pub open spec fn stripped_reasoning(s: Seq<char>) -> Seq<char> {
    trim(strip_blocks(s, "<think>"@, "</think>"@))
}

/// Removes every `<think>...</think>` block (an unclosed `<think>` is left as it is),
/// then trims surrounding whitespace.
pub fn strip_reasoning_blocks(content: &str) -> (r: String)
    ensures
        r@ == stripped_reasoning(content@),
        trim(r@) == r@,
        no_complete_block(r@, "<think>"@, "</think>"@),
        stripped_reasoning(r@) == r@,
        no_complete_block(content@, "<think>"@, "</think>"@) ==> r@ == trim(content@),
        find_first(content@, "<think>"@) is None ==> r@ == trim(content@),
{
    proof {
        law_strip_reasoning(content@);
    }
    let open = chars_of("<think>");
    let close = chars_of("</think>");
    proof {
        reveal_strlit("</think>");
    }
    assert(close@.len() == 8);
    let mut result = chars_of(content);
    let ghost target = strip_blocks(content@, open@, close@);
    loop
        invariant
            open@ == "<think>"@,
            close@ == "</think>"@,
            close@.len() == 8,
            strip_blocks(result@, open@, close@) == target,
        ensures
            result@ == target,
        decreases result@.len(),
    {
        match find_vec(&result, &open, 0) {
            None => {
                assert(strip_blocks(result@, open@, close@) == result@);
                break;
            },
            Some(start) => match find_vec(&result, &close, start) {
                None => {
                    assert(strip_blocks(result@, open@, close@) == result@);
                    break;
                },
                Some(end) => {
                    proof {
                        lemma_find_from(result@, close@, start as int);
                    }
                    let ghost before = result@;
                    let mut next: Vec<char> = Vec::new();
                    let mut i: usize = 0;
                    while i < start
                        invariant
                            i <= start <= before.len(),
                            result@ == before,
                            next@ == before.take(i as int),
                        decreases start - i,
                    {
                        next.push(result[i]);
                        assert(before.take(i + 1) =~= before.take(i as int).push(before[i as int]));
                        i = i + 1;
                    }
                    let n = result.len();
                    assert(end + 8 <= n);
                    let mut j: usize = end + 8;
                    while j < result.len()
                        invariant
                            end + 8 <= j <= before.len(),
                            result@ == before,
                            next@ == before.take(start as int) + before.subrange(end + 8, j as int),
                        decreases before.len() - j,
                    {
                        next.push(result[j]);
                        assert(before.subrange(end + 8, j + 1) =~= before.subrange(end + 8, j as int).push(before[j as int]));
                        j = j + 1;
                    }
                    assert(next@ =~= before.take(start as int) + before.skip(end + 8));
                    result = next;
                },
            },
        }
    }
    let (a, b) = trim_bounds(&result);
    string_of_range(&result, a, b)
}

/// After stripping, no `<think>` is followed by a `</think>`.
pub proof fn law_stripped_has_no_complete_block(s: Seq<char>, open: Seq<char>, close: Seq<char>)
    requires
        close.len() > 0,
    ensures
        no_complete_block(strip_blocks(s, open, close), open, close),
    decreases s.len(),
{
    match find_first(s, open) {
        None => {},
        Some(st) => match find_from(s, close, st) {
            None => {},
            Some(e) => {
                lemma_find_from(s, open, 0);
                lemma_find_from(s, close, st);
                law_stripped_has_no_complete_block(s.take(st) + s.skip(e + close.len()), open, close);
            },
        },
    }
}

proof fn lemma_no_block_in_subrange(x: Seq<char>, open: Seq<char>, close: Seq<char>, a: int, b: int)
    requires
        no_complete_block(x, open, close),
        0 <= a <= b <= x.len(),
    ensures
        no_complete_block(x.subrange(a, b), open, close),
{
    let sub = x.subrange(a, b);
    match find_first(sub, open) {
        None => {},
        Some(p) => {
            lemma_find_from(sub, open, 0);
            assert(x.subrange(a + p, a + p + open.len()) =~= sub.subrange(p, p + open.len()));
            assert(occurs_at(x, open, a + p));
            lemma_find_from(x, open, 0);
            let st = find_first(x, open)->0;
            assert(st <= a + p);
            lemma_find_from(x, close, st);
            match find_from(sub, close, p) {
                None => {},
                Some(q) => {
                    lemma_find_from(sub, close, p);
                    assert(x.subrange(a + q, a + q + close.len()) =~= sub.subrange(q, q + close.len()));
                    assert(occurs_at(x, close, a + q));
                    assert(false);
                },
            }
        },
    }
}

/// What `strip_reasoning_blocks` promises of its result `r` for any content `c`:
/// `r` is trimmed; no `<think>` in `r` is followed by a `</think>`; stripping `r`
/// again gives `r`; and content without a complete block (no `<think>` at all, or
/// an unclosed one) is only trimmed.
pub proof fn law_strip_reasoning(c: Seq<char>)
    ensures
        trim(stripped_reasoning(c)) == stripped_reasoning(c),
        no_complete_block(stripped_reasoning(c), "<think>"@, "</think>"@),
        stripped_reasoning(stripped_reasoning(c)) == stripped_reasoning(c),
        no_complete_block(c, "<think>"@, "</think>"@) ==> stripped_reasoning(c) == trim(c),
        find_first(c, "<think>"@) is None ==> stripped_reasoning(c) == trim(c),
{
    reveal_strlit("</think>");
    let x = strip_blocks(c, "<think>"@, "</think>"@);
    law_stripped_has_no_complete_block(c, "<think>"@, "</think>"@);
    crate::text::lemma_trim_is_subrange(x);
    let t = trim(x);
    lemma_no_block_in_subrange(x, "<think>"@, "</think>"@, crate::text::lead_ws(x) as int,
        x.len() - crate::text::trail_ws(crate::text::trim_start(x)));
    assert(strip_blocks(t, "<think>"@, "</think>"@) == t);
    crate::text::lemma_trim_idempotent(x);
    if no_complete_block(c, "<think>"@, "</think>"@) {
        assert(strip_blocks(c, "<think>"@, "</think>"@) == c);
    }
}

/// The code review prompt chosen for a file.
#[derive(Debug, Clone, Copy, PartialEq, Eq, Structural)]
pub enum ReviewPrompt {
    General,
    Rust,
    TypeScript,
    Html,
    Css,
    Python,
    Sql,
    Shell,
    Docker,
    Go,
    Java,
    Json,
    Makefile,
    Markdown,
    Yaml,
}

/// The prompt asset file that holds a prompt's text.
pub open spec fn prompt_asset(p: ReviewPrompt) -> Seq<char> {
    match p {
        ReviewPrompt::General => "code-review.md"@,
        ReviewPrompt::Rust => "review-rust.md"@,
        ReviewPrompt::TypeScript => "review-typescript.md"@,
        ReviewPrompt::Html => "review-html.md"@,
        ReviewPrompt::Css => "review-css.md"@,
        ReviewPrompt::Python => "review-py.md"@,
        ReviewPrompt::Sql => "review-sql.md"@,
        ReviewPrompt::Shell => "review-sh.md"@,
        ReviewPrompt::Docker => "review-docker.md"@,
        ReviewPrompt::Go => "review-go.md"@,
        ReviewPrompt::Java => "review-java.md"@,
        ReviewPrompt::Json => "review-json.md"@,
        ReviewPrompt::Makefile => "review-makefile.md"@,
        ReviewPrompt::Markdown => "review-md.md"@,
        ReviewPrompt::Yaml => "review-yaml.md"@,
    }
}

/// A file named `Dockerfile` in any mix of upper and lower case (`Dockerfile`,
/// `DOCKERFILE`, `dockerfile`) gets the Docker prompt, and one named `Makefile`
/// in any case the Makefile prompt.
pub proof fn law_review_prompt_name_any_case(path: Seq<char>, n: Seq<char>)
    requires
        file_name_of(path) == Some(n),
    ensures
        (n.len() == 10 && forall|i: int| 0 <= i < 10 ==> (#[trigger] n[i] == "dockerfile"@[i] || n[i] == "DOCKERFILE"@[i]))
            ==> review_prompt_for(path) == ReviewPrompt::Docker,
        (n.len() == 8 && forall|i: int| 0 <= i < 8 ==> (#[trigger] n[i] == "makefile"@[i] || n[i] == "MAKEFILE"@[i]))
            ==> review_prompt_for(path) == ReviewPrompt::Makefile,
{
    reveal_strlit("dockerfile");
    reveal_strlit("DOCKERFILE");
    reveal_strlit("makefile");
    reveal_strlit("MAKEFILE");
    if n.len() == 10 && forall|i: int| 0 <= i < 10 ==> (#[trigger] n[i] == "dockerfile"@[i] || n[i] == "DOCKERFILE"@[i]) {
        assert(all_ascii(n)) by {
            assert forall|i: int| 0 <= i < n.len() implies (#[trigger] n[i] as u32) < 128 by {
                assert(n[i] == "dockerfile"@[i] || n[i] == "DOCKERFILE"@[i]);
            }
        }
        assert(lowered(n) =~= "dockerfile"@) by {
            assert forall|i: int| 0 <= i < 10 implies #[trigger] ascii_lower(n[i]) == "dockerfile"@[i] by {
                assert(n[i] == "dockerfile"@[i] || n[i] == "DOCKERFILE"@[i]);
            }
        }
    }
    if n.len() == 8 && forall|i: int| 0 <= i < 8 ==> (#[trigger] n[i] == "makefile"@[i] || n[i] == "MAKEFILE"@[i]) {
        assert(all_ascii(n)) by {
            assert forall|i: int| 0 <= i < n.len() implies (#[trigger] n[i] as u32) < 128 by {
                assert(n[i] == "makefile"@[i] || n[i] == "MAKEFILE"@[i]);
            }
        }
        assert(lowered(n) =~= "makefile"@) by {
            assert forall|i: int| 0 <= i < 8 implies #[trigger] ascii_lower(n[i]) == "makefile"@[i] by {
                assert(n[i] == "makefile"@[i] || n[i] == "MAKEFILE"@[i]);
            }
        }
        law_review_prompt_by_name(path, n);
    }
}

/// The length of a prompt's asset name and its eighth and ninth characters,
/// which tell the assets apart.
spec fn asset_key(p: ReviewPrompt) -> (int, char, char) {
    match p {
        ReviewPrompt::General => (14, 'v', 'i'),
        ReviewPrompt::Rust => (14, 'r', 'u'),
        ReviewPrompt::TypeScript => (20, 't', 'y'),
        ReviewPrompt::Html => (14, 'h', 't'),
        ReviewPrompt::Css => (13, 'c', 's'),
        ReviewPrompt::Python => (12, 'p', 'y'),
        ReviewPrompt::Sql => (13, 's', 'q'),
        ReviewPrompt::Shell => (12, 's', 'h'),
        ReviewPrompt::Docker => (16, 'd', 'o'),
        ReviewPrompt::Go => (12, 'g', 'o'),
        ReviewPrompt::Java => (14, 'j', 'a'),
        ReviewPrompt::Json => (14, 'j', 's'),
        ReviewPrompt::Makefile => (18, 'm', 'a'),
        ReviewPrompt::Markdown => (12, 'm', 'd'),
        ReviewPrompt::Yaml => (14, 'y', 'a'),
    }
}

proof fn lemma_asset_key(p: ReviewPrompt)
    ensures
        prompt_asset(p).len() == asset_key(p).0,
        prompt_asset(p)[7] == asset_key(p).1,
        prompt_asset(p)[8] == asset_key(p).2,
{
    reveal_strlit("code-review.md");
    reveal_strlit("review-rust.md");
    reveal_strlit("review-typescript.md");
    reveal_strlit("review-html.md");
    reveal_strlit("review-css.md");
    reveal_strlit("review-py.md");
    reveal_strlit("review-sql.md");
    reveal_strlit("review-sh.md");
    reveal_strlit("review-docker.md");
    reveal_strlit("review-go.md");
    reveal_strlit("review-java.md");
    reveal_strlit("review-json.md");
    reveal_strlit("review-makefile.md");
    reveal_strlit("review-md.md");
    reveal_strlit("review-yaml.md");
    let a = prompt_asset(p);
    match p {
        ReviewPrompt::General => {
            assert(a[7] == 'v' && a[8] == 'i');
        },
        ReviewPrompt::Rust => {
            assert(a[7] == 'r' && a[8] == 'u');
        },
        ReviewPrompt::TypeScript => {
            assert(a[7] == 't' && a[8] == 'y');
        },
        ReviewPrompt::Html => {
            assert(a[7] == 'h' && a[8] == 't');
        },
        ReviewPrompt::Css => {
            assert(a[7] == 'c' && a[8] == 's');
        },
        ReviewPrompt::Python => {
            assert(a[7] == 'p' && a[8] == 'y');
        },
        ReviewPrompt::Sql => {
            assert(a[7] == 's' && a[8] == 'q');
        },
        ReviewPrompt::Shell => {
            assert(a[7] == 's' && a[8] == 'h');
        },
        ReviewPrompt::Docker => {
            assert(a[7] == 'd' && a[8] == 'o');
        },
        ReviewPrompt::Go => {
            assert(a[7] == 'g' && a[8] == 'o');
        },
        ReviewPrompt::Java => {
            assert(a[7] == 'j' && a[8] == 'a');
        },
        ReviewPrompt::Json => {
            assert(a[7] == 'j' && a[8] == 's');
        },
        ReviewPrompt::Makefile => {
            assert(a[7] == 'm' && a[8] == 'a');
        },
        ReviewPrompt::Markdown => {
            assert(a[7] == 'm' && a[8] == 'd');
        },
        ReviewPrompt::Yaml => {
            assert(a[7] == 'y' && a[8] == 'a');
        },
    }
}

/// Each review prompt has an asset file of its own: different prompts never
/// share one (the Python prompt is not read from the general `code-review.md`).
pub proof fn law_prompt_assets_distinct(p: ReviewPrompt, q: ReviewPrompt)
    requires
        p != q,
    ensures
        prompt_asset(p) != prompt_asset(q),
{
    lemma_asset_key(p);
    lemma_asset_key(q);
}

impl ReviewPrompt {
    /// The prompt asset file that holds this prompt's text.
    pub fn asset_name(&self) -> (r: &'static str)
        ensures
            r@ == prompt_asset(*self),
    {
        match self {
            ReviewPrompt::General => "code-review.md",
            ReviewPrompt::Rust => "review-rust.md",
            ReviewPrompt::TypeScript => "review-typescript.md",
            ReviewPrompt::Html => "review-html.md",
            ReviewPrompt::Css => "review-css.md",
            ReviewPrompt::Python => "review-py.md",
            ReviewPrompt::Sql => "review-sql.md",
            ReviewPrompt::Shell => "review-sh.md",
            ReviewPrompt::Docker => "review-docker.md",
            ReviewPrompt::Go => "review-go.md",
            ReviewPrompt::Java => "review-java.md",
            ReviewPrompt::Json => "review-json.md",
            ReviewPrompt::Makefile => "review-makefile.md",
            ReviewPrompt::Markdown => "review-md.md",
            ReviewPrompt::Yaml => "review-yaml.md",
        }
    }
}

/// The prompt chosen for a file extension.
pub open spec fn prompt_for_extension(e: Seq<char>) -> ReviewPrompt {
    if e == "rs"@ {
        ReviewPrompt::Rust
    } else if e == "ts"@ || e == "tsx"@ || e == "js"@ || e == "jsx"@ || e == "mjs"@ || e == "cjs"@ {
        ReviewPrompt::TypeScript
    } else if e == "html"@ || e == "htm"@ {
        ReviewPrompt::Html
    } else if e == "css"@ || e == "scss"@ || e == "sass"@ || e == "less"@ {
        ReviewPrompt::Css
    } else if e == "py"@ || e == "pyw"@ || e == "pyi"@ {
        ReviewPrompt::Python
    } else if e == "sql"@ || e == "ddl"@ || e == "dml"@ {
        ReviewPrompt::Sql
    } else if e == "sh"@ || e == "bash"@ || e == "zsh"@ || e == "fish"@ {
        ReviewPrompt::Shell
    } else if e == "go"@ {
        ReviewPrompt::Go
    } else if e == "java"@ {
        ReviewPrompt::Java
    } else if e == "json"@ {
        ReviewPrompt::Json
    } else if e == "yaml"@ || e == "yml"@ {
        ReviewPrompt::Yaml
    } else if e == "md"@ || e == "markdown"@ {
        ReviewPrompt::Markdown
    } else {
        ReviewPrompt::General
    }
}

/// A lowercased file name that names a Dockerfile.
pub open spec fn is_docker_name(lower: Seq<char>) -> bool {
    lower == "dockerfile"@ || has_prefix(lower, "dockerfile."@)
}

/// A lowercased file name that names a Makefile.
pub open spec fn is_make_name(lower: Seq<char>) -> bool {
    lower == "makefile"@ || has_prefix(lower, "makefile."@)
}

/// The review prompt for a path: Dockerfiles and Makefiles by name (case-insensitive),
/// then by extension, else the general prompt.
pub open spec fn review_prompt_for(path: Seq<char>) -> ReviewPrompt {
    match file_name_of(path) {
        Some(n) if is_docker_name(lowered(n)) => ReviewPrompt::Docker,
        Some(n) if is_make_name(lowered(n)) => ReviewPrompt::Makefile,
        _ => match extension_of(path) {
            Some(e) => prompt_for_extension(e),
            None => ReviewPrompt::General,
        },
    }
}

fn prompt_for_extension_exec(e: &Vec<char>) -> (r: ReviewPrompt)
    ensures
        r == prompt_for_extension(e@),
{
    if vec_eq_str(e, "rs") {
        ReviewPrompt::Rust
    } else if vec_eq_str(e, "ts") || vec_eq_str(e, "tsx") || vec_eq_str(e, "js") || vec_eq_str(e, "jsx")
        || vec_eq_str(e, "mjs") || vec_eq_str(e, "cjs") {
        ReviewPrompt::TypeScript
    } else if vec_eq_str(e, "html") || vec_eq_str(e, "htm") {
        ReviewPrompt::Html
    } else if vec_eq_str(e, "css") || vec_eq_str(e, "scss") || vec_eq_str(e, "sass") || vec_eq_str(e, "less") {
        ReviewPrompt::Css
    } else if vec_eq_str(e, "py") || vec_eq_str(e, "pyw") || vec_eq_str(e, "pyi") {
        ReviewPrompt::Python
    } else if vec_eq_str(e, "sql") || vec_eq_str(e, "ddl") || vec_eq_str(e, "dml") {
        ReviewPrompt::Sql
    } else if vec_eq_str(e, "sh") || vec_eq_str(e, "bash") || vec_eq_str(e, "zsh") || vec_eq_str(e, "fish") {
        ReviewPrompt::Shell
    } else if vec_eq_str(e, "go") {
        ReviewPrompt::Go
    } else if vec_eq_str(e, "java") {
        ReviewPrompt::Java
    } else if vec_eq_str(e, "json") {
        ReviewPrompt::Json
    } else if vec_eq_str(e, "yaml") || vec_eq_str(e, "yml") {
        ReviewPrompt::Yaml
    } else if vec_eq_str(e, "md") || vec_eq_str(e, "markdown") {
        ReviewPrompt::Markdown
    } else {
        ReviewPrompt::General
    }
}

/// Returns the code review prompt for a file, by file name and extension.
pub fn get_review_prompt_for_file(file_path: &str) -> (r: ReviewPrompt)
    ensures
        r == review_prompt_for(file_path@),
{
    let path = chars_of(file_path);
    match file_name_vec(&path) {
        Some(name) => {
            let name_str = string_of(&name);
            let lower_s = to_lowercase(name_str.as_str());
            let lower = chars_of(lower_s.as_str());
            if vec_eq_str(&lower, "dockerfile") || vec_starts_with_str(&lower, "dockerfile.") {
                return ReviewPrompt::Docker;
            }
            if vec_eq_str(&lower, "makefile") || vec_starts_with_str(&lower, "makefile.") {
                return ReviewPrompt::Makefile;
            }
        },
        None => {},
    }
    match extension_vec(&path) {
        Some(e) => prompt_for_extension_exec(&e),
        None => ReviewPrompt::General,
    }
}

/// The file name of `path`, lowercased, is neither a Dockerfile name (`dockerfile`,
/// `dockerfile.*`) nor a Makefile name (`makefile`, `makefile.*`).
pub open spec fn plain_file_name(path: Seq<char>) -> bool {
    match file_name_of(path) {
        Some(n) => {
            let l = lowered(n);
            &&& l != "dockerfile"@
            &&& !has_prefix(l, "dockerfile."@)
            &&& l != "makefile"@
            &&& !has_prefix(l, "makefile."@)
        },
        None => true,
    }
}

/// A file whose name is not a Dockerfile or Makefile name is reviewed by its
/// extension: `rs` with the Rust prompt; `ts`, `tsx`, `js`, `jsx`, `mjs`, `cjs` with
/// the TypeScript prompt; `html`, `htm` with the HTML prompt; `css`, `scss`, `sass`,
/// `less` with the CSS prompt; `py`, `pyw`, `pyi` with the Python prompt; `sql`,
/// `ddl`, `dml` with the SQL prompt; `sh`, `bash`, `zsh`, `fish` with the shell
/// prompt; `go`, `java`, `json` with their own prompts; `yaml`, `yml` with the YAML
/// prompt; `md`, `markdown` with the Markdown prompt; any other extension, or
/// none, with the general code-review prompt.
pub proof fn law_review_prompt_by_extension(path: Seq<char>)
    requires
        plain_file_name(path),
    ensures
        extension_of(path) == Some("rs"@) ==> review_prompt_for(path) == ReviewPrompt::Rust,
        (extension_of(path) == Some("ts"@) || extension_of(path) == Some("tsx"@) || extension_of(path) == Some("js"@)
            || extension_of(path) == Some("jsx"@) || extension_of(path) == Some("mjs"@) || extension_of(path) == Some(
            "cjs"@)) ==> review_prompt_for(path) == ReviewPrompt::TypeScript,
        (extension_of(path) == Some("html"@) || extension_of(path) == Some("htm"@)) ==> review_prompt_for(path)
            == ReviewPrompt::Html,
        (extension_of(path) == Some("css"@) || extension_of(path) == Some("scss"@) || extension_of(path) == Some(
            "sass"@) || extension_of(path) == Some("less"@)) ==> review_prompt_for(path) == ReviewPrompt::Css,
        (extension_of(path) == Some("py"@) || extension_of(path) == Some("pyw"@) || extension_of(path) == Some("pyi"@))
            ==> review_prompt_for(path) == ReviewPrompt::Python,
        (extension_of(path) == Some("sql"@) || extension_of(path) == Some("ddl"@) || extension_of(path) == Some("dml"@))
            ==> review_prompt_for(path) == ReviewPrompt::Sql,
        (extension_of(path) == Some("sh"@) || extension_of(path) == Some("bash"@) || extension_of(path) == Some("zsh"@)
            || extension_of(path) == Some("fish"@)) ==> review_prompt_for(path) == ReviewPrompt::Shell,
        extension_of(path) == Some("go"@) ==> review_prompt_for(path) == ReviewPrompt::Go,
        extension_of(path) == Some("java"@) ==> review_prompt_for(path) == ReviewPrompt::Java,
        extension_of(path) == Some("json"@) ==> review_prompt_for(path) == ReviewPrompt::Json,
        (extension_of(path) == Some("yaml"@) || extension_of(path) == Some("yml"@)) ==> review_prompt_for(path)
            == ReviewPrompt::Yaml,
        (extension_of(path) == Some("md"@) || extension_of(path) == Some("markdown"@)) ==> review_prompt_for(path)
            == ReviewPrompt::Markdown,
        extension_of(path) is None ==> review_prompt_for(path) == ReviewPrompt::General,
        (match extension_of(path) {
            Some(e) => !(e == "rs"@ || e == "ts"@ || e == "tsx"@ || e == "js"@ || e == "jsx"@ || e == "mjs"@ || e
                == "cjs"@ || e == "html"@ || e == "htm"@ || e == "css"@ || e == "scss"@ || e == "sass"@ || e == "less"@
                || e == "py"@ || e == "pyw"@ || e == "pyi"@ || e == "sql"@ || e == "ddl"@ || e == "dml"@ || e == "sh"@
                || e == "bash"@ || e == "zsh"@ || e == "fish"@ || e == "go"@ || e == "java"@ || e == "json"@ || e
                == "yaml"@ || e == "yml"@ || e == "md"@ || e == "markdown"@),
            None => false,
        }) ==> review_prompt_for(path) == ReviewPrompt::General,
{
    reveal_strlit("rs");
    reveal_strlit("ts");
    reveal_strlit("tsx");
    reveal_strlit("js");
    reveal_strlit("jsx");
    reveal_strlit("mjs");
    reveal_strlit("cjs");
    reveal_strlit("html");
    reveal_strlit("htm");
    reveal_strlit("css");
    reveal_strlit("scss");
    reveal_strlit("sass");
    reveal_strlit("less");
    reveal_strlit("py");
    reveal_strlit("pyw");
    reveal_strlit("pyi");
    reveal_strlit("sql");
    reveal_strlit("ddl");
    reveal_strlit("dml");
    reveal_strlit("sh");
    reveal_strlit("bash");
    reveal_strlit("zsh");
    reveal_strlit("fish");
    reveal_strlit("go");
    reveal_strlit("java");
    reveal_strlit("json");
    reveal_strlit("yaml");
    reveal_strlit("yml");
    reveal_strlit("md");
    reveal_strlit("markdown");
    match extension_of(path) {
        Some(e) => {
            if e.len() == 0 {
            } else if e == "rs"@ {
                assert(e[0] == 'r' && e[1] == 's');
            } else if e == "ts"@ {
                assert(e[0] == 't' && e[1] == 's');
            } else if e == "tsx"@ {
                assert(e[0] == 't' && e[1] == 's' && e[2] == 'x');
            } else if e == "js"@ {
                assert(e[0] == 'j' && e[1] == 's');
            } else if e == "jsx"@ {
                assert(e[0] == 'j' && e[1] == 's' && e[2] == 'x');
            } else if e == "mjs"@ {
                assert(e[0] == 'm' && e[1] == 'j' && e[2] == 's');
            } else if e == "cjs"@ {
                assert(e[0] == 'c' && e[1] == 'j' && e[2] == 's');
            } else if e == "html"@ {
                assert(e[0] == 'h' && e[1] == 't' && e[2] == 'm' && e[3] == 'l');
            } else if e == "htm"@ {
                assert(e[0] == 'h' && e[1] == 't' && e[2] == 'm');
            } else if e == "css"@ {
                assert(e[0] == 'c' && e[1] == 's' && e[2] == 's');
            } else if e == "scss"@ {
                assert(e[0] == 's' && e[1] == 'c' && e[2] == 's' && e[3] == 's');
            } else if e == "sass"@ {
                assert(e[0] == 's' && e[1] == 'a' && e[2] == 's' && e[3] == 's');
            } else if e == "less"@ {
                assert(e[0] == 'l' && e[1] == 'e' && e[2] == 's' && e[3] == 's');
            } else if e == "py"@ {
                assert(e[0] == 'p' && e[1] == 'y');
            } else if e == "pyw"@ {
                assert(e[0] == 'p' && e[1] == 'y' && e[2] == 'w');
            } else if e == "pyi"@ {
                assert(e[0] == 'p' && e[1] == 'y' && e[2] == 'i');
            } else if e == "sql"@ {
                assert(e[0] == 's' && e[1] == 'q' && e[2] == 'l');
            } else if e == "ddl"@ {
                assert(e[0] == 'd' && e[1] == 'd' && e[2] == 'l');
            } else if e == "dml"@ {
                assert(e[0] == 'd' && e[1] == 'm' && e[2] == 'l');
            } else if e == "sh"@ {
                assert(e[0] == 's' && e[1] == 'h');
            } else if e == "bash"@ {
                assert(e[0] == 'b' && e[1] == 'a' && e[2] == 's' && e[3] == 'h');
            } else if e == "zsh"@ {
                assert(e[0] == 'z' && e[1] == 's' && e[2] == 'h');
            } else if e == "fish"@ {
                assert(e[0] == 'f' && e[1] == 'i' && e[2] == 's' && e[3] == 'h');
            } else if e == "go"@ {
                assert(e[0] == 'g' && e[1] == 'o');
            } else if e == "java"@ {
                assert(e[0] == 'j' && e[1] == 'a' && e[2] == 'v' && e[3] == 'a');
            } else if e == "json"@ {
                assert(e[0] == 'j' && e[1] == 's' && e[2] == 'o' && e[3] == 'n');
            } else if e == "yaml"@ {
                assert(e[0] == 'y' && e[1] == 'a' && e[2] == 'm' && e[3] == 'l');
            } else if e == "yml"@ {
                assert(e[0] == 'y' && e[1] == 'm' && e[2] == 'l');
            } else if e == "md"@ {
                assert(e[0] == 'm' && e[1] == 'd');
            } else if e == "markdown"@ {
                assert(e[0] == 'm' && e[1] == 'a' && e[2] == 'r' && e[3] == 'k' && e[4] == 'd' && e[5] == 'o' && e[6] == 'w' && e[7] == 'n');
            }
        },
        None => {},
    }
}

/// A file named `Dockerfile` or `Dockerfile.*` (in any case) gets the Docker
/// prompt, and one named `Makefile` or `Makefile.*` the Makefile prompt, whatever
/// its extension.
pub proof fn law_review_prompt_by_name(path: Seq<char>, n: Seq<char>)
    requires
        file_name_of(path) == Some(n),
    ensures
        (lowered(n) == "dockerfile"@ || has_prefix(lowered(n), "dockerfile."@)) ==> review_prompt_for(path)
            == ReviewPrompt::Docker,
        (lowered(n) == "makefile"@ || has_prefix(lowered(n), "makefile."@)) ==> review_prompt_for(path)
            == ReviewPrompt::Makefile,
{
    reveal_strlit("dockerfile");
    reveal_strlit("dockerfile.");
    reveal_strlit("makefile");
    reveal_strlit("makefile.");
    let l = lowered(n);
    if l == "makefile"@ || has_prefix(l, "makefile."@) {
        if has_prefix(l, "makefile."@) {
            assert(l.subrange(0, 9)[0] == l[0]);
        }
        assert(l[0] == 'm');
        if has_prefix(l, "dockerfile."@) {
            assert(l.subrange(0, 11)[0] == l[0]);
        }
        assert(!is_docker_name(l));
    }
}

/// The user message sent to the model: the question, preceded by the file's
/// content (and path) when a file is attached.
pub open spec fn user_message(question: Seq<char>, content: Option<Seq<char>>, path: Option<Seq<char>>) -> Seq<char> {
    match content {
        Some(c) => {
            let info = match path {
                Some(p) => "the file '"@ + p + "'"@,
                None => "the file"@,
            };
            "Here is the content of "@ + info + ":\n\n```\n"@ + c + "\n```\n\nUser query: "@ + question
        },
        None => "User query: "@ + question,
    }
}

/// The characters of an optional string slice.
pub open spec fn opt_str_view(o: Option<&str>) -> Option<Seq<char>> {
    match o {
        Some(s) => Some(s@),
        None => None,
    }
}

/// Composes the user message with optional file content.
pub fn compose_user_message(question: &str, file_content: Option<&str>, file_path: Option<&str>) -> (r: String)
    ensures
        r@ == user_message(question@, opt_str_view(file_content), opt_str_view(file_path)),
{
    match file_content {
        Some(content) => {
            let mut r = String::from_str("Here is the content of ");
            match file_path {
                Some(p) => {
                    r.append("the file '");
                    r.append(p);
                    r.append("'");
                },
                None => {
                    r.append("the file");
                },
            }
            r.append(":\n\n```\n");
            r.append(content);
            r.append("\n```\n\nUser query: ");
            r.append(question);
            r
        },
        None => {
            let mut r = String::from_str("User query: ");
            r.append(question);
            r
        },
    }
}

/// A template as used: its rendering when rendering succeeded, else the template
/// as written.
pub open spec fn rendered_text(template: Seq<char>, rendered: Option<String>) -> Seq<char> {
    match rendered {
        Some(x) => x@,
        None => template,
    }
}

/// A template as used (see `rendered_text`): `rendered` is what the template
/// renderer made of it, `None` when rendering failed.
pub fn rendered_or(template: &str, rendered: Option<String>) -> (r: String)
    ensures
        r@ == rendered_text(template@, rendered),
{
    match rendered {
        Some(x) => x,
        None => String::from_str(template),
    }
}

/// The system prompt: the persona, a blank line, then the task prompt, each as
/// rendered (or as written where rendering failed).
pub fn combine_prompts(
    persona: &str,
    persona_rendered: Option<String>,
    task_prompt: &str,
    task_rendered: Option<String>,
) -> (r: String)
    ensures
        r@ == rendered_text(persona@, persona_rendered) + "\n\n"@ + rendered_text(task_prompt@, task_rendered),
{
    let mut r = rendered_or(persona, persona_rendered);
    r.append("\n\n");
    let t = rendered_or(task_prompt, task_rendered);
    r.append(t.as_str());
    r
}

/// Whether retrieval is used for a question: `--no-rag` turns it off, `--rag`
/// turns it on, otherwise the configuration decides.
pub fn should_enable_rag(config_enabled: bool, rag_flag: bool, no_rag_flag: bool) -> (r: bool)
    ensures
        r == (if no_rag_flag { false } else if rag_flag { true } else { config_enabled }),
{
    if no_rag_flag {
        false
    } else if rag_flag {
        true
    } else {
        config_enabled
    }
}

/// The question asked: the question, then the extra message after a space.
pub fn full_question(question: &str, message: Option<&str>) -> (r: String)
    ensures
        r@ == (match message { Some(m) => question@ + " "@ + m@, None => question@ }),
{
    let mut r = String::from_str(question);
    match message {
        Some(m) => {
            r.append(" ");
            r.append(m);
        },
        None => {},
    }
    r
}

/// The file content sent with a question: retrieved context first, then the
/// file under a heading; either alone when the other is missing.
pub fn enhance_file_content(rag_context: Option<String>, file_content: Option<String>) -> (r: Option<String>)
    ensures
        match (rag_context, file_content) {
            (Some(g), Some(f)) => r matches Some(x) && x@ == g@ + "\n\n# Provided File:\n\n"@ + f@,
            (Some(g), None) => r matches Some(x) && x@ == g@,
            (None, f) => r == f,
        },
{
    match (rag_context, file_content) {
        (Some(g), Some(f)) => {
            let mut x = g;
            x.append("\n\n# Provided File:\n\n");
            x.append(f.as_str());
            Some(x)
        },
        (Some(g), None) => Some(g),
        (None, f) => f,
    }
}

/// Why a file could not be read.
pub enum ReadFailure {
    NotFound,
    PermissionDenied,
    Other { error: String },
}

/// What the assistant says when the file given with a question cannot be read.
pub fn file_read_message(failure: &ReadFailure) -> (r: String)
    ensures
        r@ == (match *failure {
            ReadFailure::NotFound => "🦑: I can't find that file. Please check the path and try again."@,
            ReadFailure::PermissionDenied => "🦑: I don't have permission to read that file."@,
            ReadFailure::Other { error } => "🦑: I couldn't read that file - "@ + error@,
        }),
{
    match failure {
        ReadFailure::NotFound => String::from_str("🦑: I can't find that file. Please check the path and try again."),
        ReadFailure::PermissionDenied => String::from_str("🦑: I don't have permission to read that file."),
        ReadFailure::Other { error } => {
            let mut r = String::from_str("🦑: I couldn't read that file - ");
            r.append(error.as_str());
            r
        },
    }
}

/// What the assistant says when a custom prompt file cannot be read.
pub fn prompt_read_message(failure: &ReadFailure) -> (r: String)
    ensures
        r@ == (match *failure {
            ReadFailure::NotFound => "🦑: I can't find that custom prompt file. Please check the path and try again."@,
            ReadFailure::PermissionDenied => "🦑: I don't have permission to read that prompt file."@,
            ReadFailure::Other { error } => "🦑: I couldn't read that prompt file - "@ + error@,
        }),
{
    match failure {
        ReadFailure::NotFound => String::from_str(
            "🦑: I can't find that custom prompt file. Please check the path and try again.",
        ),
        ReadFailure::PermissionDenied => String::from_str("🦑: I don't have permission to read that prompt file."),
        ReadFailure::Other { error } => {
            let mut r = String::from_str("🦑: I couldn't read that prompt file - ");
            r.append(error.as_str());
            r
        },
    }
}

/// What the assistant says when the file given with a question is refused by the
/// path policy.
pub fn path_refusal_message(e: &PathValidationError) -> (r: String)
    ensures
        r@ == (match *e {
            PathValidationError::PathIgnored(_) => "🦑: I can't access that file - it's in your .squidignore list."@,
            PathValidationError::PathNotAllowed(_) => "🦑: I can't access that file - it's outside the project directory or in a protected system location."@,
            PathValidationError::PermissionDenied(_) => "🦑: I can't access that file - "@ + path_error_text(*e),
        }),
{
    match e {
        PathValidationError::PathIgnored(_) => String::from_str(
            "🦑: I can't access that file - it's in your .squidignore list.",
        ),
        PathValidationError::PathNotAllowed(_) => String::from_str(
            "🦑: I can't access that file - it's outside the project directory or in a protected system location.",
        ),
        PathValidationError::PermissionDenied(_) => {
            let mut r = String::from_str("🦑: I can't access that file - ");
            let m = e.message();
            r.append(m.as_str());
            r
        },
    }
}

/// The model for a question: the chosen agent's (the default agent when none is
/// chosen); for an unknown agent, the two lines the assistant prints.
pub fn resolve_agent_model(config: &Config, agent: Option<&str>) -> (r: Result<String, (String, String)>)
    ensures
        ({
            let id = match agent { Some(a) => a@, None => config.agents.default_agent@ };
            match agent_lookup(config.agents.agents@, id) {
                Some(a) => r matches Ok(m) && m@ == a.model@,
                None => r matches Err(lines) && lines.0@ == "🦑: Configuration error - agent '"@ + id + "' not found"@
                    && lines.1@ == "Available agents: "@ + join(crate::doctor::agent_ids(config.agents.agents@), ", "@),
            }
        }),
{
    let id = match agent {
        Some(a) => a,
        None => config.agents.default_agent.as_str(),
    };
    match config.get_agent(id) {
        Some(a) => Ok(a.model.clone()),
        None => {
            let mut l1 = String::from_str("🦑: Configuration error - agent '");
            l1.append(id);
            l1.append("' not found");
            let mut l2 = String::from_str("Available agents: ");
            let ids = crate::doctor::agent_id_list(&config.agents.agents);
            let joined = join_strings(&ids, ", ");
            l2.append(joined.as_str());
            Err((l1, l2))
        },
    }
}

} // verus!
