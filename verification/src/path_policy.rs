//! Path policy for plugin file access: a blacklist of system directories, a
//! whitelist of working directories, and ignore patterns written as globs.

use vstd::prelude::*;
use crate::text::{
    chars_of, contains_seq, find_vec, has_prefix, push_char, split_on, split_vec, string_of, trim,
    trim_bounds, vec_range, vviews, lemma_find_from, str_eq, vec_starts_with_str,
};
use crate::path::{file_name_of, file_name_vec, is_absolute, join_spec, join_path};

verus! {

// ---------------------------------------------------------------------------
// Path components
// ---------------------------------------------------------------------------

/// A segment that names a directory or file (not empty, not `.`).
pub open spec fn is_named_segment(p: Seq<char>) -> bool {
    p.len() > 0 && p != seq!['.']
}

/// The named segments among `ps`, in order.
pub open spec fn named_segments(ps: Seq<Seq<char>>) -> Seq<Seq<char>>
    decreases ps.len(),
{
    if ps.len() == 0 {
        Seq::empty()
    } else if is_named_segment(ps.last()) {
        named_segments(ps.drop_last()).push(ps.last())
    } else {
        named_segments(ps.drop_last())
    }
}

/// The components of a path (`Path::components` on Unix): `/` for the root,
/// a leading `.` for a path that starts with the current directory, then every
/// named segment (`..` included); empty and interior `.` segments vanish.
pub open spec fn path_comps(s: Seq<char>) -> Seq<Seq<char>> {
    let pieces = split_on(s, '/');
    let head = if is_absolute(s) {
        seq![seq!['/']]
    } else if pieces.len() > 0 && pieces[0] == seq!['.'] {
        seq![seq!['.']]
    } else {
        Seq::empty()
    };
    head + named_segments(pieces)
}

/// `Path::starts_with`: the components of `base` are a prefix of those of `path`.
pub open spec fn path_starts_with(path: Seq<char>, base: Seq<char>) -> bool {
    let a = path_comps(path);
    let b = path_comps(base);
    b.len() <= a.len() && a.subrange(0, b.len() as int) == b
}

/// The component stack after resolving `.` and `..` (a `..` pops the last one).
pub open spec fn norm_stack(comps: Seq<Seq<char>>) -> Seq<Seq<char>>
    decreases comps.len(),
{
    if comps.len() == 0 {
        Seq::empty()
    } else {
        let st = norm_stack(comps.drop_last());
        let c = comps.last();
        if c == seq!['.'] {
            st
        } else if c == seq!['.', '.'] {
            if st.len() > 0 { st.drop_last() } else { st }
        } else {
            st.push(c)
        }
    }
}

/// The pieces joined with `/` between them.
pub open spec fn join_with_slash(ps: Seq<Seq<char>>) -> Seq<char>
    decreases ps.len(),
{
    if ps.len() == 0 {
        Seq::empty()
    } else if ps.len() == 1 {
        ps[0]
    } else {
        join_with_slash(ps.drop_last()) + seq!['/'] + ps.last()
    }
}

/// A path assembled from components: the root, then the rest joined by `/`.
pub open spec fn render_comps(st: Seq<Seq<char>>) -> Seq<char> {
    if st.len() > 0 && st[0] == seq!['/'] {
        seq!['/'] + join_with_slash(st.skip(1))
    } else {
        join_with_slash(st)
    }
}

/// The lexically normalised form of a path.
pub open spec fn normalized(s: Seq<char>) -> Seq<char> {
    render_comps(norm_stack(path_comps(s)))
}

fn single(c: char) -> (r: Vec<char>)
    ensures
        r@ == seq![c],
{
    let mut r: Vec<char> = Vec::new();
    r.push(c);
    assert(r@ =~= seq![c]);
    r
}

fn named_segments_exec(ps: &Vec<Vec<char>>) -> (r: Vec<Vec<char>>)
    ensures
        vviews(r@) == named_segments(vviews(ps@)),
{
    let mut r: Vec<Vec<char>> = Vec::new();
    let mut i: usize = 0;
    while i < ps.len()
        invariant
            i <= ps@.len(),
            vviews(r@) == named_segments(vviews(ps@.take(i as int))),
        decreases ps@.len() - i,
    {
        let ghost before = r@;
        assert(vviews(ps@.take(i + 1)).drop_last() =~= vviews(ps@.take(i as int)));
        assert(vviews(ps@.take(i + 1)).last() == ps@[i as int]@);
        let p = &ps[i];
        let dot = p.len() == 1 && p[0] == '.';
        if p.len() > 0 && !dot {
            assert(p@ != seq!['.']);
            r.push(vec_range(p, 0, p.len()));
            assert(p@.subrange(0, p@.len() as int) =~= p@);
            assert(vviews(r@) =~= vviews(before).push(p@));
        } else {
            if dot {
                assert(p@ =~= seq!['.']);
            }
        }
        i = i + 1;
    }
    assert(ps@.take(ps@.len() as int) =~= ps@);
    r
}

/// The components of a path.
pub fn path_comps_exec(s: &Vec<char>) -> (r: Vec<Vec<char>>)
    ensures
        vviews(r@) == path_comps(s@),
{
    let pieces = split_vec(s, '/');
    let named = named_segments_exec(&pieces);
    let mut r: Vec<Vec<char>> = Vec::new();
    if s.len() > 0 && s[0] == '/' {
        r.push(single('/'));
    } else if pieces.len() > 0 && pieces[0].len() == 1 && pieces[0][0] == '.' {
        assert(pieces@[0]@ =~= seq!['.']);
        assert(vviews(pieces@)[0] == pieces@[0]@);
        r.push(single('.'));
    } else {
        if pieces.len() > 0 {
            assert(vviews(pieces@)[0] == pieces@[0]@);
            if pieces[0].len() == 1 {
                assert(pieces@[0]@ != seq!['.']);
            }
        }
    }
    let ghost head = r@;
    let mut i: usize = 0;
    while i < named.len()
        invariant
            i <= named@.len(),
            vviews(r@) == vviews(head) + vviews(named@.take(i as int)),
        decreases named@.len() - i,
    {
        let ghost before = r@;
        let x = vec_range(&named[i], 0, named[i].len());
        r.push(x);
        assert(named@[i as int]@.subrange(0, named@[i as int]@.len() as int) =~= named@[i as int]@);
        assert(vviews(r@) =~= vviews(before).push(x@));
        assert(vviews(named@.take(i + 1)) =~= vviews(named@.take(i as int)).push(named@[i as int]@));
        assert(vviews(r@) =~= vviews(head) + vviews(named@.take(i + 1)));
        i = i + 1;
    }
    assert(named@.take(named@.len() as int) =~= named@);
    proof {
        if s@.len() > 0 && s@[0] == '/' {
            assert(vviews(head) =~= seq![seq!['/']]);
        } else if vviews(pieces@).len() > 0 && vviews(pieces@)[0] == seq!['.'] {
            assert(vviews(head) =~= seq![seq!['.']]);
        } else {
            assert(vviews(head) =~= Seq::<Seq<char>>::empty());
        }
    }
    r
}

/// Whether the components of `base` are a prefix of those of `path`.
pub fn path_starts_with_exec(path: &str, base: &str) -> (r: bool)
    ensures
        r == path_starts_with(path@, base@),
{
    let pv = chars_of(path);
    let bv = chars_of(base);
    let a = path_comps_exec(&pv);
    let b = path_comps_exec(&bv);
    assert(vviews(a@).len() == a@.len());
    assert(vviews(b@).len() == b@.len());
    if b.len() > a.len() {
        return false;
    }
    let mut i: usize = 0;
    while i < b.len()
        invariant
            vviews(a@) == path_comps(path@),
            vviews(b@) == path_comps(base@),
            b@.len() <= a@.len(),
            i <= b@.len(),
            forall|k: int| 0 <= k < i ==> vviews(a@)[k] == vviews(b@)[k],
        decreases b@.len() - i,
    {
        assert(vviews(a@)[i as int] == a@[i as int]@);
        assert(vviews(b@)[i as int] == b@[i as int]@);
        if !crate::text::vec_eq(&a[i], &b[i]) {
            assert(vviews(a@)[i as int] != vviews(b@)[i as int]);
            assert(vviews(a@).subrange(0, vviews(b@).len() as int)[i as int] != vviews(b@)[i as int]);
            assert(vviews(a@).subrange(0, vviews(b@).len() as int) != vviews(b@));
            assert(vviews(a@) == path_comps(path@));
            assert(vviews(b@) == path_comps(base@));
            assert(!path_starts_with(path@, base@));
            return false;
        }
        i = i + 1;
    }
    assert(vviews(a@).subrange(0, vviews(b@).len() as int) =~= vviews(b@));
    assert(path_starts_with(path@, base@));
    true
}

/// The lexically normalised form of a path (`.` dropped, `..` pops a component).
pub fn normalize_path(s: &str) -> (r: String)
    ensures
        r@ == normalized(s@),
{
    let comps = path_comps_exec(&chars_of(s));
    let st = norm_stack_exec(&comps);
    render_exec(&st)
}

fn norm_stack_exec(comps: &Vec<Vec<char>>) -> (st: Vec<Vec<char>>)
    ensures
        vviews(st@) == norm_stack(vviews(comps@)),
{
    let mut st: Vec<Vec<char>> = Vec::new();
    let mut i: usize = 0;
    while i < comps.len()
        invariant
            i <= comps@.len(),
            vviews(st@) == norm_stack(vviews(comps@).take(i as int)),
        decreases comps@.len() - i,
    {
        let ghost before = st@;
        assert(vviews(comps@).take(i + 1).drop_last() =~= vviews(comps@).take(i as int));
        assert(vviews(comps@).take(i + 1).last() == comps@[i as int]@);
        let c = &comps[i];
        let is_dot = c.len() == 1 && c[0] == '.';
        let is_dotdot = c.len() == 2 && c[0] == '.' && c[1] == '.';
        if is_dot {
            assert(c@ =~= seq!['.']);
        } else if is_dotdot {
            assert(c@ =~= seq!['.', '.']);
            assert(c@ != seq!['.']);
            if st.len() > 0 {
                st.pop();
                assert(vviews(st@) =~= vviews(before).drop_last());
            }
        } else {
            assert(c@ != seq!['.']) by {
                if c@.len() == 1 {
                    assert(c@[0] != '.');
                }
            }
            assert(c@ != seq!['.', '.']) by {
                if c@.len() == 2 {
                    assert(c@[0] != '.' || c@[1] != '.');
                }
            }
            let x = vec_range(c, 0, c.len());
            st.push(x);
            assert(c@.subrange(0, c@.len() as int) =~= c@);
            assert(vviews(st@) =~= vviews(before).push(c@));
        }
        i = i + 1;
    }
    assert(vviews(comps@).take(comps@.len() as int) =~= vviews(comps@));
    st
}

fn render_exec(st: &Vec<Vec<char>>) -> (r: String)
    ensures
        r@ == render_comps(vviews(st@)),
{
    let rooted = st.len() > 0 && st[0].len() == 1 && st[0][0] == '/';
    proof {
        if st@.len() > 0 {
            assert(vviews(st@)[0] == st@[0]@);
            if st@[0]@.len() == 1 && st@[0]@[0] == '/' {
                assert(st@[0]@ =~= seq!['/']);
            }
        }
    }
    let mut r = String::new();
    let first: usize = if rooted { 1 } else { 0 };
    if rooted {
        push_char(&mut r, '/');
    }
    let ghost pre = r@;
    let mut i: usize = first;
    while i < st.len()
        invariant
            first <= i <= st@.len(),
            r@ == pre + join_with_slash(vviews(st@).subrange(first as int, i as int)),
        decreases st@.len() - i,
    {
        let ghost before = r@;
        if i > first {
            push_char(&mut r, '/');
        }
        let piece = string_of(&st[i]);
        r.append(piece.as_str());
        proof {
            let ps = vviews(st@).subrange(first as int, i + 1);
            assert(ps.drop_last() =~= vviews(st@).subrange(first as int, i as int));
            assert(ps.last() == st@[i as int]@);
            if i == first {
                assert(ps.len() == 1);
                assert(join_with_slash(vviews(st@).subrange(first as int, i as int)) =~= Seq::<char>::empty());
            }
            assert(r@ =~= pre + join_with_slash(ps));
        }
        i = i + 1;
    }
    proof {
        if rooted {
            assert(vviews(st@).subrange(1, st@.len() as int) =~= vviews(st@).skip(1));
        } else {
            assert(vviews(st@).subrange(0, st@.len() as int) =~= vviews(st@));
            assert(pre =~= Seq::<char>::empty());
        }
    }
    r
}

// ---------------------------------------------------------------------------
// Glob patterns
// ---------------------------------------------------------------------------

/// The regular expression body for a glob: `**` any text, `*` any text within one
/// component, `?` one character other than `/`, regex metacharacters escaped.
pub open spec fn glob_body(p: Seq<char>) -> Seq<char>
    decreases p.len(),
{
    if p.len() == 0 {
        Seq::empty()
    } else {
        let c = p[0];
        if c == '*' {
            if p.len() > 1 && p[1] == '*' {
                seq!['.', '*'] + glob_body(p.skip(2))
            } else {
                seq!['[', '^', '/', ']', '*'] + glob_body(p.skip(1))
            }
        } else if c == '?' {
            seq!['[', '^', '/', ']'] + glob_body(p.skip(1))
        } else if c == '.' {
            seq!['\\', '.'] + glob_body(p.skip(1))
        } else if c == '+' || c == '^' || c == '$' || c == '(' || c == ')' || c == '[' || c == ']' || c == '{'
            || c == '}' || c == '|' || c == '\\' {
            seq!['\\', c] + glob_body(p.skip(1))
        } else {
            seq![c] + glob_body(p.skip(1))
        }
    }
}

/// The anchored regular expression for a glob pattern.
pub open spec fn glob_regex(p: Seq<char>) -> Seq<char> {
    seq!['^'] + glob_body(p) + seq!['$']
}

/// Translates a glob pattern into an anchored regular expression.
pub fn glob_to_regex(pattern: &str) -> (r: String)
    ensures
        r@ == glob_regex(pattern@),
{
    let p = chars_of(pattern);
    let mut r = String::new();
    push_char(&mut r, '^');
    let mut i: usize = 0;
    assert(p@.skip(0) =~= p@);
    assert(r@.skip(1) =~= Seq::<char>::empty());
    while i < p.len()
        invariant
            i <= p@.len(),
            glob_body(p@) == (r@.skip(1) + glob_body(p@.skip(i as int))),
            r@.len() >= 1 && r@[0] == '^',
        decreases p@.len() - i,
    {
        let ghost before = r@;
        let ghost rest = p@.skip(i as int);
        let c = p[i];
        assert(rest[0] == c);
        if c == '*' {
            if i + 1 < p.len() && p[i + 1] == '*' {
                push_char(&mut r, '.');
                push_char(&mut r, '*');
                assert(rest.skip(2) =~= p@.skip(i + 2));
                assert(r@.skip(1) =~= before.skip(1) + seq!['.', '*']);
                i = i + 2;
            } else {
                push_char(&mut r, '[');
                push_char(&mut r, '^');
                push_char(&mut r, '/');
                push_char(&mut r, ']');
                push_char(&mut r, '*');
                assert(rest.skip(1) =~= p@.skip(i + 1));
                assert(r@.skip(1) =~= before.skip(1) + seq!['[', '^', '/', ']', '*']);
                i = i + 1;
            }
        } else if c == '?' {
            push_char(&mut r, '[');
            push_char(&mut r, '^');
            push_char(&mut r, '/');
            push_char(&mut r, ']');
            assert(rest.skip(1) =~= p@.skip(i + 1));
            assert(r@.skip(1) =~= before.skip(1) + seq!['[', '^', '/', ']']);
            i = i + 1;
        } else if c == '.' {
            push_char(&mut r, '\\');
            push_char(&mut r, '.');
            assert(rest.skip(1) =~= p@.skip(i + 1));
            assert(r@.skip(1) =~= before.skip(1) + seq!['\\', '.']);
            i = i + 1;
        } else if c == '+' || c == '^' || c == '$' || c == '(' || c == ')' || c == '[' || c == ']' || c == '{'
            || c == '}' || c == '|' || c == '\\' {
            push_char(&mut r, '\\');
            push_char(&mut r, c);
            assert(rest.skip(1) =~= p@.skip(i + 1));
            assert(r@.skip(1) =~= before.skip(1) + seq!['\\', c]);
            i = i + 1;
        } else {
            push_char(&mut r, c);
            assert(rest.skip(1) =~= p@.skip(i + 1));
            assert(r@.skip(1) =~= before.skip(1) + seq![c]);
            i = i + 1;
        }
    }
    let ghost before = r@;
    push_char(&mut r, '$');
    assert(p@.skip(p@.len() as int) =~= Seq::<char>::empty());
    assert(r@ =~= seq!['^'] + glob_body(p@) + seq!['$']) by {
        assert(before =~= seq!['^'] + before.skip(1));
    }
    r
}

// ---------------------------------------------------------------------------
// Regular expressions
// ---------------------------------------------------------------------------

/// The name given to whether `regex::Regex::new` compiles a pattern.
pub uninterp spec fn regex_compiles(pattern: Seq<char>) -> bool;

/// The name given to what `Regex::is_match` answers for the regex compiled from
/// a pattern and a text: whether it matches somewhere in the text.
pub uninterp spec fn regex_matches(pattern: Seq<char>, text: Seq<char>) -> bool;

/// Compiles `pattern` with `regex::Regex::new` and, when it compiles, runs
/// `Regex::is_match` on `text`. The contract claims only that whether the pattern
/// compiles is a function of the pattern (named `regex_compiles`) and that the
/// verdict is a function of the two strings (named `regex_matches`); what the
/// regex engine decides is not stated.
#[verifier::external_body]
fn regex_is_match(pattern: &str, text: &str) -> (r: Option<bool>)
    ensures
        (r is Some) == regex_compiles(pattern@),
        r matches Some(b) ==> b == regex_matches(pattern@, text@),
{
    regex::Regex::new(pattern).ok().map(|re| re.is_match(text))
}

// ---------------------------------------------------------------------------
// Ignore patterns
// ---------------------------------------------------------------------------

/// The lines of an ignore file that are patterns: trimmed, not empty, not comments.
pub open spec fn pattern_lines(ls: Seq<Seq<char>>) -> Seq<Seq<char>>
    decreases ls.len(),
{
    if ls.len() == 0 {
        Seq::empty()
    } else {
        let t = trim(ls.last());
        if t.len() > 0 && t[0] != '#' {
            pattern_lines(ls.drop_last()).push(t)
        } else {
            pattern_lines(ls.drop_last())
        }
    }
}

/// The ignore patterns held in the text of an ignore file.
pub open spec fn ignore_patterns_of(content: Seq<char>) -> Seq<Seq<char>> {
    pattern_lines(split_on(content, '\n'))
}

/// The views of a list of strings.
pub open spec fn sviews(v: Seq<String>) -> Seq<Seq<char>> {
    v.map_values(|s: String| s@)
}

/// Parses the text of an ignore file (such as `.squidignore`) into patterns.
pub fn parse_ignore_patterns(content: &str) -> (r: Vec<String>)
    ensures
        sviews(r@) == ignore_patterns_of(content@),
{
    let v = chars_of(content);
    let lines = split_vec(&v, '\n');
    let mut r: Vec<String> = Vec::new();
    let mut i: usize = 0;
    while i < lines.len()
        invariant
            i <= lines@.len(),
            sviews(r@) == pattern_lines(vviews(lines@).take(i as int)),
        decreases lines@.len() - i,
    {
        let ghost before = r@;
        assert(vviews(lines@).take(i + 1).drop_last() =~= vviews(lines@).take(i as int));
        assert(vviews(lines@).take(i + 1).last() == lines@[i as int]@);
        let (a, b) = trim_bounds(&lines[i]);
        if a < b && lines[i][a] != '#' {
            let t = crate::text::string_of_range(&lines[i], a, b);
            r.push(t);
            assert(sviews(r@) =~= sviews(before).push(t@));
        }
        i = i + 1;
    }
    assert(vviews(lines@).take(lines@.len() as int) =~= vviews(lines@));
    r
}

// ---------------------------------------------------------------------------
// The validator
// ---------------------------------------------------------------------------

/// Why a path was refused.
#[derive(Debug, Clone)]
pub enum PathValidationError {
    PathNotAllowed(String),
    PermissionDenied(String),
    PathIgnored(String),
}

/// The text of a path validation error.
pub open spec fn path_error_text(e: PathValidationError) -> Seq<char> {
    match e {
        PathValidationError::PathNotAllowed(m) => "Path is not allowed: "@ + m@,
        PathValidationError::PermissionDenied(m) => "Permission denied: "@ + m@,
        PathValidationError::PathIgnored(m) => "Path is ignored by ignore file: "@ + m@,
    }
}

impl PathValidationError {
    /// The error's message.
    pub fn message(&self) -> (r: String)
        ensures
            r@ == path_error_text(*self),
    {
        match self {
            PathValidationError::PathNotAllowed(m) => {
                let mut r = String::from_str("Path is not allowed: ");
                r.append(m.as_str());
                r
            },
            PathValidationError::PermissionDenied(m) => {
                let mut r = String::from_str("Permission denied: ");
                r.append(m.as_str());
                r
            },
            PathValidationError::PathIgnored(m) => {
                let mut r = String::from_str("Path is ignored by ignore file: ");
                r.append(m.as_str());
                r
            },
        }
    }
}

/// Whether a glob matches a path: a pattern without `/` that does not start with
/// `**` is matched against the file name only, any other against the whole path.
/// A pattern whose regular expression does not compile matches nothing.
pub open spec fn pattern_matches(path: Seq<char>, pattern: Seq<char>) -> bool {
    if !contains_seq(pattern, seq!['/']) && !has_prefix(pattern, seq!['*', '*']) {
        match file_name_of(path) {
            Some(f) => regex_compiles(glob_regex(pattern)) && regex_matches(glob_regex(pattern), f),
            None => false,
        }
    } else {
        regex_compiles(glob_regex(pattern)) && regex_matches(glob_regex(pattern), path)
    }
}

/// Whether some ignore pattern matches the path.
pub open spec fn is_ignored_by(path: Seq<char>, patterns: Seq<String>) -> bool {
    exists|i: int| 0 <= i < patterns.len() && pattern_matches(path, #[trigger] patterns[i]@)
}

/// Whether some entry of `dirs` is a component-wise prefix of `path`.
pub open spec fn under_any(path: Seq<char>, dirs: Seq<String>) -> bool {
    exists|i: int| 0 <= i < dirs.len() && path_starts_with(path, #[trigger] dirs[i]@)
}

/// The system directories that are always refused (and the user's secret
/// directories when the home directory is known).
pub open spec fn blacklist_for(home: Option<Seq<char>>) -> Seq<Seq<char>> {
    let base = seq!["/etc"@, "/bin"@, "/sbin"@, "/usr/bin"@, "/usr/sbin"@, "/root"@, "/var"@, "/sys"@, "/proc"@];
    match home {
        Some(h) => base + seq![
            join_spec(h, ".ssh"@),
            join_spec(h, ".gnupg"@),
            join_spec(h, ".aws"@),
            join_spec(h, ".config/gcloud"@),
        ],
        None => base,
    }
}

/// The system directories `/etc`, `/bin`, `/sbin`, `/usr/bin`, `/usr/sbin`,
/// `/root`, `/var`, `/sys` and `/proc` are always refused; when the home directory
/// is known, so are its `.ssh`, `.gnupg`, `.aws` and `.config/gcloud`.
pub proof fn law_blacklist_covers(home: Option<Seq<char>>)
    ensures
        blacklist_for(home).contains("/etc"@),
        blacklist_for(home).contains("/bin"@),
        blacklist_for(home).contains("/sbin"@),
        blacklist_for(home).contains("/usr/bin"@),
        blacklist_for(home).contains("/usr/sbin"@),
        blacklist_for(home).contains("/root"@),
        blacklist_for(home).contains("/var"@),
        blacklist_for(home).contains("/sys"@),
        blacklist_for(home).contains("/proc"@),
        home matches Some(h) ==> (blacklist_for(home).contains(join_spec(h, ".ssh"@)) && blacklist_for(home).contains(
            join_spec(h, ".gnupg"@),
        ) && blacklist_for(home).contains(join_spec(h, ".aws"@)) && blacklist_for(home).contains(
            join_spec(h, ".config/gcloud"@),
        )),
{
    assert(blacklist_for(home)[0] == "/etc"@);
    assert(blacklist_for(home)[1] == "/bin"@);
    assert(blacklist_for(home)[2] == "/sbin"@);
    assert(blacklist_for(home)[3] == "/usr/bin"@);
    assert(blacklist_for(home)[4] == "/usr/sbin"@);
    assert(blacklist_for(home)[5] == "/root"@);
    assert(blacklist_for(home)[6] == "/var"@);
    assert(blacklist_for(home)[7] == "/sys"@);
    assert(blacklist_for(home)[8] == "/proc"@);
    match home {
        Some(h) => {
            assert(blacklist_for(home)[9] == join_spec(h, ".ssh"@));
            assert(blacklist_for(home)[10] == join_spec(h, ".gnupg"@));
            assert(blacklist_for(home)[11] == join_spec(h, ".aws"@));
            assert(blacklist_for(home)[12] == join_spec(h, ".config/gcloud"@));
        },
        None => {},
    }
}

/// Path policy: blacklisted directories, whitelisted directories, ignore patterns.
pub struct PathValidator {
    whitelist: Vec<String>,
    blacklist: Vec<String>,
    ignore_patterns: Vec<String>,
}

/// The outcome of checking an already resolved path.
pub open spec fn check_outcome(
    path: Seq<char>,
    blocked: Seq<String>,
    allowed: Seq<String>,
    patterns: Seq<String>,
) -> Result<Seq<char>, PathValidationError> {
    if under_any(path, blocked) {
        Err(PathValidationError::PathNotAllowed(arbitrary()))
    } else if !under_any(path, allowed) {
        Err(PathValidationError::PathNotAllowed(arbitrary()))
    } else if is_ignored_by(path, patterns) {
        Err(PathValidationError::PathIgnored(arbitrary()))
    } else {
        Ok(path)
    }
}

impl PathValidator {
    /// The whitelisted directories.
    pub closed spec fn whitelist_view(&self) -> Seq<Seq<char>> {
        sviews(self.whitelist@)
    }

    /// The blacklisted directories.
    pub closed spec fn blacklist_view(&self) -> Seq<Seq<char>> {
        sviews(self.blacklist@)
    }

    /// The ignore patterns.
    pub closed spec fn patterns(&self) -> Seq<String> {
        self.ignore_patterns@
    }

    /// A validator with the given ignore patterns: the current directory (`.` and,
    /// when known, its absolute form) is allowed; system directories are refused.
    pub fn with_ignore_patterns(ignore_patterns: Vec<String>, current_dir: Option<String>, home: Option<String>) -> (v: Self)
        ensures
            v.whitelist_view() == seq![".".view(), match current_dir { Some(d) => d@, None => "."@ }],
            v.blacklist_view() == blacklist_for(match home { Some(h) => Some(h@), None => None }),
            v.patterns() == ignore_patterns@,
    {
        let mut whitelist: Vec<String> = Vec::new();
        whitelist.push(String::from_str("."));
        whitelist.push(match current_dir {
            Some(d) => d,
            None => String::from_str("."),
        });
        let mut blacklist: Vec<String> = Vec::new();
        blacklist.push(String::from_str("/etc"));
        blacklist.push(String::from_str("/bin"));
        blacklist.push(String::from_str("/sbin"));
        blacklist.push(String::from_str("/usr/bin"));
        blacklist.push(String::from_str("/usr/sbin"));
        blacklist.push(String::from_str("/root"));
        blacklist.push(String::from_str("/var"));
        blacklist.push(String::from_str("/sys"));
        blacklist.push(String::from_str("/proc"));
        match &home {
            Some(h) => {
                blacklist.push(join_path(h.as_str(), ".ssh"));
                blacklist.push(join_path(h.as_str(), ".gnupg"));
                blacklist.push(join_path(h.as_str(), ".aws"));
                blacklist.push(join_path(h.as_str(), ".config/gcloud"));
            },
            None => {},
        }
        let v = PathValidator { whitelist, blacklist, ignore_patterns };
        assert(sviews(v.whitelist@) =~= seq![".".view(), match current_dir { Some(d) => d@, None => "."@ }]);
        assert(sviews(v.blacklist@) =~= blacklist_for(match home { Some(h) => Some(h@), None => None }));
        v
    }

    /// The whitelisted directories, to be resolved against the file system.
    pub fn whitelist(&self) -> (r: &Vec<String>)
        ensures
            sviews(r@) == self.whitelist_view(),
    {
        &self.whitelist
    }

    /// The blacklisted directories, to be resolved against the file system.
    pub fn blacklist(&self) -> (r: &Vec<String>)
        ensures
            sviews(r@) == self.blacklist_view(),
    {
        &self.blacklist
    }

    /// The path to check for a path that does not exist yet: made absolute against
    /// the current directory, then lexically normalised.
    pub fn candidate_path(path: &str, current_dir: &str) -> (r: String)
        ensures
            r@ == normalized(if is_absolute(path@) { path@ } else { join_spec(current_dir@, path@) }),
    {
        if crate::path::is_absolute_str(path) {
            normalize_path(path)
        } else {
            let abs = join_path(current_dir, path);
            normalize_path(abs.as_str())
        }
    }

    /// Whether a glob matches a path.
    pub fn matches_pattern(&self, path: &str, pattern: &str) -> (r: bool)
        ensures
            r == pattern_matches(path@, pattern@),
    {
        let pv = chars_of(pattern);
        let slash = single('/');
        let has_slash = find_vec(&pv, &slash, 0).is_some();
        let starts_dstar = vec_starts_with_str(&pv, "**");
        proof { reveal_strlit("**"); }
        assert("**"@ =~= seq!['*', '*']);
        let re = glob_to_regex(pattern);
        if !has_slash && !starts_dstar {
            let path_v = chars_of(path);
            match file_name_vec(&path_v) {
                Some(f) => {
                    let fs = string_of(&f);
                    match regex_is_match(re.as_str(), fs.as_str()) {
                        Some(b) => b,
                        None => false,
                    }
                },
                None => false,
            }
        } else {
            match regex_is_match(re.as_str(), path) {
                Some(b) => b,
                None => false,
            }
        }
    }

    /// Whether some ignore pattern matches the path.
    pub fn is_ignored(&self, path: &str) -> (r: bool)
        ensures
            r == is_ignored_by(path@, self.patterns()),
    {
        let mut i: usize = 0;
        while i < self.ignore_patterns.len()
            invariant
                i <= self.ignore_patterns@.len(),
                forall|k: int| 0 <= k < i ==> !pattern_matches(path@, #[trigger] self.ignore_patterns@[k]@),
            decreases self.ignore_patterns@.len() - i,
        {
            if self.matches_pattern(path, self.ignore_patterns[i].as_str()) {
                return true;
            }
            i = i + 1;
        }
        false
    }

    /// Checks a resolved path against resolved blacklist and whitelist entries and
    /// the ignore patterns; on success returns the path.
    pub fn check_resolved(&self, path: &str, blocked: &Vec<String>, allowed: &Vec<String>) -> (r: Result<String, PathValidationError>)
        ensures
            match check_outcome(path@, blocked@, allowed@, self.patterns()) {
                Ok(p) => r matches Ok(s) && s@ == p,
                Err(PathValidationError::PathNotAllowed(_)) => r matches Err(PathValidationError::PathNotAllowed(m))
                    && m@ == (if under_any(path@, blocked@) {
                        "Path is in blacklisted directory: "@ + path@
                    } else {
                        "Path is not in whitelisted directory: "@ + path@
                    }),
                Err(_) => r matches Err(PathValidationError::PathIgnored(m)) && m@ == path@,
            },
    {
        if any_prefix(path, blocked) {
            let mut m = String::from_str("Path is in blacklisted directory: ");
            m.append(path);
            return Err(PathValidationError::PathNotAllowed(m));
        }
        if !any_prefix(path, allowed) {
            let mut m = String::from_str("Path is not in whitelisted directory: ");
            m.append(path);
            return Err(PathValidationError::PathNotAllowed(m));
        }
        if self.is_ignored(path) {
            return Err(PathValidationError::PathIgnored(String::from_str(path)));
        }
        Ok(String::from_str(path))
    }
}

/// Whether some entry of `dirs` is a component-wise prefix of `path`.
pub fn any_prefix(path: &str, dirs: &Vec<String>) -> (r: bool)
    ensures
        r == under_any(path@, dirs@),
{
    let mut i: usize = 0;
    while i < dirs.len()
        invariant
            i <= dirs@.len(),
            forall|k: int| 0 <= k < i ==> !path_starts_with(path@, #[trigger] dirs@[k]@),
        decreases dirs@.len() - i,
    {
        if path_starts_with_exec(path, dirs[i].as_str()) {
            return true;
        }
        i = i + 1;
    }
    false
}

/// A path under a blacklisted directory is always refused, whatever the
/// whitelist and the ignore patterns say; so is a path outside every whitelisted
/// directory.
pub proof fn law_blacklist_and_whitelist_refuse(
    path: Seq<char>,
    blocked: Seq<String>,
    allowed: Seq<String>,
    patterns: Seq<String>,
)
    ensures
        under_any(path, blocked) ==> check_outcome(path, blocked, allowed, patterns) is Err,
        !under_any(path, allowed) ==> check_outcome(path, blocked, allowed, patterns) is Err,
        check_outcome(path, blocked, allowed, patterns) is Ok <==> (!under_any(path, blocked) && under_any(path, allowed)
            && !is_ignored_by(path, patterns)),
{
}

} // verus!
