//! Unix path helpers over strings: file names, extensions and components.

use vstd::prelude::*;
use crate::text::{chars_of, push_char};

verus! {

/// Index of the last `'/'` in `s`, or `-1`.
pub open spec fn last_index_of(s: Seq<char>, c: char) -> int
    decreases s.len(),
{
    if s.len() == 0 {
        -1
    } else if s.last() == c {
        s.len() - 1
    } else {
        last_index_of(s.drop_last(), c)
    }
}

pub proof fn lemma_last_index_of(s: Seq<char>, c: char)
    ensures
        -1 <= last_index_of(s, c) < s.len(),
        last_index_of(s, c) >= 0 ==> s[last_index_of(s, c)] == c,
        forall|j: int| last_index_of(s, c) < j < s.len() ==> s[j] != c,
    decreases s.len(),
{
    if s.len() > 0 && s.last() != c {
        lemma_last_index_of(s.drop_last(), c);
        assert forall|j: int| last_index_of(s, c) < j < s.len() implies s[j] != c by {
            if j < s.len() - 1 {
                assert(s.drop_last()[j] == s[j]);
            }
        }
    }
}

/// The final component of a path (`Path::file_name`): trailing separators and
/// `.` components are skipped; a final `..` or an empty path has none.
pub open spec fn file_name_of(s: Seq<char>) -> Option<Seq<char>>
    decreases s.len(),
{
    if s.len() == 0 {
        None
    } else if s.last() == '/' {
        file_name_of(s.drop_last())
    } else {
        let k = last_index_of(s, '/') + 1;
        let seg = s.skip(k);
        if seg == seq!['.'] {
            proof {
                lemma_last_index_of(s, '/');
            }
            file_name_of(s.take(k))
        } else if seg == seq!['.', '.'] {
            None
        } else {
            Some(seg)
        }
    }
}

/// The extension of a file name (`Path::extension`): the part after the last `.`,
/// unless that `.` is the first character or there is none.
pub open spec fn extension_of_name(name: Seq<char>) -> Option<Seq<char>> {
    let d = last_index_of(name, '.');
    if name == seq!['.', '.'] || d <= 0 {
        None
    } else {
        Some(name.skip(d + 1))
    }
}

/// The extension of a path.
pub open spec fn extension_of(s: Seq<char>) -> Option<Seq<char>> {
    match file_name_of(s) {
        Some(name) => extension_of_name(name),
        None => None,
    }
}

/// `c` occurs in `s` at `k` and nowhere after it.
proof fn lemma_last_index_at(s: Seq<char>, c: char, k: int)
    requires
        0 <= k < s.len(),
        s[k] == c,
        forall|j: int| k < j < s.len() ==> s[j] != c,
    ensures
        last_index_of(s, c) == k,
{
    lemma_last_index_of(s, c);
}

/// `c` does not occur in `s` after position `from`.
proof fn lemma_last_index_before(s: Seq<char>, c: char, from: int)
    requires
        -1 <= from,
        forall|j: int| from < j < s.len() ==> s[j] != c,
    ensures
        last_index_of(s, c) <= from,
{
    lemma_last_index_of(s, c);
    let li = last_index_of(s, c);
    if li > from {
        assert(s[li] == c);
    }
}

/// The file name of `dir/name`, and of `name` alone, is `name` when `name` is a
/// plain component: not empty, without `/`, and neither `.` nor `..`.
pub proof fn law_file_name_of_joined(dir: Seq<char>, name: Seq<char>)
    requires
        name.len() > 0,
        forall|i: int| 0 <= i < name.len() ==> name[i] != '/',
        name != seq!['.'],
        name != seq!['.', '.'],
    ensures
        file_name_of(dir + seq!['/'] + name) == Some(name),
        file_name_of(name) == Some(name),
{
    let s = dir + seq!['/'] + name;
    let k = dir.len() as int;
    assert(s[k] == '/');
    assert forall|j: int| k < j < s.len() implies s[j] != '/' by {
        assert(s[j] == name[j - k - 1]);
    }
    lemma_last_index_at(s, '/', k);
    assert(s.last() == name[name.len() - 1]);
    assert(s.skip(k + 1) =~= name);
    lemma_last_index_before(name, '/', -1);
    lemma_last_index_of(name, '/');
    assert(name.skip(0) =~= name);
}

/// A file name made of a stem, a `.` and an extension without `.` has that
/// extension (`app.py` has `py`, `archive.tar.gz` has `gz`).
pub proof fn law_extension_of_name(stem: Seq<char>, ext: Seq<char>)
    requires
        stem.len() > 0,
        forall|i: int| 0 <= i < ext.len() ==> ext[i] != '.',
        !(stem == seq!['.'] && ext.len() == 0),
    ensures
        extension_of_name(stem + seq!['.'] + ext) == Some(ext),
{
    let name = stem + seq!['.'] + ext;
    let k = stem.len() as int;
    assert(name[k] == '.');
    assert forall|j: int| k < j < name.len() implies name[j] != '.' by {
        assert(name[j] == ext[j - k - 1]);
    }
    lemma_last_index_at(name, '.', k);
    assert(name.skip(k + 1) =~= ext);
    if name == seq!['.', '.'] {
        assert(stem.len() == 1 && ext.len() == 0);
        assert(stem[0] == name[0]);
        assert(stem =~= seq!['.']);
    }
}

/// A file name with no `.` after its first character has no extension
/// (`Makefile`, `.bashrc`).
pub proof fn law_no_extension(name: Seq<char>)
    requires
        forall|i: int| 0 < i < name.len() ==> name[i] != '.',
    ensures
        extension_of_name(name) is None,
{
    lemma_last_index_before(name, '.', 0);
}

/// The extension of `dir/stem.ext` is `ext` when the stem has no `/` and the
/// extension has neither `/` nor `.` (`src/app.py` has `py`).
pub proof fn law_extension_of_path(dir: Seq<char>, stem: Seq<char>, ext: Seq<char>)
    requires
        stem.len() > 0,
        forall|i: int| 0 <= i < stem.len() ==> stem[i] != '/',
        forall|i: int| 0 <= i < ext.len() ==> ext[i] != '.' && ext[i] != '/',
        !(stem == seq!['.'] && ext.len() == 0),
    ensures
        extension_of(dir + seq!['/'] + (stem + seq!['.'] + ext)) == Some(ext),
        extension_of(stem + seq!['.'] + ext) == Some(ext),
{
    let name = stem + seq!['.'] + ext;
    assert forall|i: int| 0 <= i < name.len() implies name[i] != '/' by {
        if i < stem.len() {
            assert(name[i] == stem[i]);
        } else if i > stem.len() {
            assert(name[i] == ext[i - stem.len() - 1]);
        }
    }
    law_extension_of_name(stem, ext);
    if name == seq!['.', '.'] {
        assert(stem.len() == 1 && ext.len() == 0);
        assert(stem[0] == name[0]);
        assert(stem =~= seq!['.']);
    }
    assert(name.len() >= 2);
    law_file_name_of_joined(dir, name);
}

/// The stem of `dir/stem.ext` is `stem` when the stem has no `/` and the
/// extension has neither `/` nor `.` (`agents/reader.md` has stem `reader`).
pub proof fn law_file_stem_of_path(dir: Seq<char>, stem: Seq<char>, ext: Seq<char>)
    requires
        stem.len() > 0,
        forall|i: int| 0 <= i < stem.len() ==> stem[i] != '/',
        forall|i: int| 0 <= i < ext.len() ==> ext[i] != '.' && ext[i] != '/',
        !(stem == seq!['.'] && ext.len() == 0),
    ensures
        file_stem_of(dir + seq!['/'] + (stem + seq!['.'] + ext)) == Some(stem),
        file_stem_of(stem + seq!['.'] + ext) == Some(stem),
{
    let name = stem + seq!['.'] + ext;
    assert forall|i: int| 0 <= i < name.len() implies name[i] != '/' by {
        if i < stem.len() {
            assert(name[i] == stem[i]);
        } else if i > stem.len() {
            assert(name[i] == ext[i - stem.len() - 1]);
        }
    }
    if name == seq!['.', '.'] {
        assert(stem.len() == 1 && ext.len() == 0);
        assert(stem[0] == name[0]);
        assert(stem =~= seq!['.']);
    }
    law_file_name_of_joined(dir, name);
    let k = stem.len() as int;
    assert(name[k] == '.');
    assert forall|j: int| k < j < name.len() implies name[j] != '.' by {
        assert(name[j] == ext[j - k - 1]);
    }
    lemma_last_index_at(name, '.', k);
    assert(name.take(k) =~= stem);
}

/// Index of the last `c` in `v`, if any.
pub fn last_index_vec(v: &Vec<char>, c: char) -> (r: Option<usize>)
    ensures
        match r {
            Some(i) => last_index_of(v@, c) == i as int,
            None => last_index_of(v@, c) == -1,
        },
{
    let mut i = v.len();
    assert(v@.take(i as int) =~= v@);
    while i > 0
        invariant
            i <= v@.len(),
            last_index_of(v@, c) == last_index_of(v@.take(i as int), c),
        decreases i,
    {
        if v[i - 1] == c {
            return Some(i - 1);
        }
        assert(v@.take(i as int).drop_last() =~= v@.take(i - 1));
        i = i - 1;
    }
    None
}

/// `Path::file_name` of a path string, as characters.
pub fn file_name_vec(path: &Vec<char>) -> (r: Option<Vec<char>>)
    ensures
        match r {
            Some(n) => file_name_of(path@) == Some(n@),
            None => file_name_of(path@) is None,
        },
{
    let mut end = path.len();
    assert(path@.take(end as int) =~= path@);
    loop
        invariant
            end <= path@.len(),
            file_name_of(path@) == file_name_of(path@.take(end as int)),
        decreases end,
    {
        let ghost s = path@.take(end as int);
        if end == 0 {
            return None;
        }
        if path[end - 1] == '/' {
            assert(s.drop_last() =~= path@.take(end - 1));
            end = end - 1;
        } else {
            let mut k = end;
            while k > 0 && path[k - 1] != '/'
                invariant
                    k <= end <= path@.len(),
                    forall|j: int| k <= j < end ==> path@[j] != '/',
                decreases k,
            {
                k = k - 1;
            }
            proof {
                lemma_last_index_of(s, '/');
                if k > 0 {
                    assert(s[k - 1] == '/');
                }
                assert(last_index_of(s, '/') + 1 == k);
            }
            let seg = slice_vec(path, k, end);
            assert(seg@ =~= s.skip(k as int));
            if seg.len() == 1 && seg[0] == '.' {
                assert(seg@ =~= seq!['.']);
                assert(s.take(k as int) =~= path@.take(k as int));
                end = k;
            } else if seg.len() == 2 && seg[0] == '.' && seg[1] == '.' {
                assert(seg@ =~= seq!['.', '.']);
                return None;
            } else {
                assert(seg@ != seq!['.']);
                assert(seg@ != seq!['.', '.']);
                return Some(seg);
            }
        }
    }
}

/// The characters `v[from..to]`.
pub fn slice_vec(v: &Vec<char>, from: usize, to: usize) -> (r: Vec<char>)
    requires
        from <= to <= v@.len(),
    ensures
        r@ == v@.subrange(from as int, to as int),
{
    let mut r: Vec<char> = Vec::new();
    let mut i = from;
    while i < to
        invariant
            from <= i <= to <= v@.len(),
            r@ == v@.subrange(from as int, i as int),
        decreases to - i,
    {
        r.push(v[i]);
        assert(v@.subrange(from as int, i + 1) =~= v@.subrange(from as int, i as int).push(v@[i as int]));
        i = i + 1;
    }
    r
}

/// `Path::extension` of a file name, as characters.
pub fn extension_of_name_vec(name: &Vec<char>) -> (r: Option<Vec<char>>)
    ensures
        match r {
            Some(e) => extension_of_name(name@) == Some(e@),
            None => extension_of_name(name@) is None,
        },
{
    if name.len() == 2 && name[0] == '.' && name[1] == '.' {
        assert(name@ =~= seq!['.', '.']);
        return None;
    }
    match last_index_vec(name, '.') {
        None => None,
        Some(d) => {
            if d == 0 {
                None
            } else {
                proof { lemma_last_index_of(name@, '.'); }
                let e = slice_vec(name, d + 1, name.len());
                assert(e@ =~= name@.skip(d + 1));
                Some(e)
            }
        }
    }
}

/// `Path::extension` of a path string, as characters.
pub fn extension_vec(path: &Vec<char>) -> (r: Option<Vec<char>>)
    ensures
        match r {
            Some(e) => extension_of(path@) == Some(e@),
            None => extension_of(path@) is None,
        },
{
    match file_name_vec(path) {
        Some(n) => extension_of_name_vec(&n),
        None => None,
    }
}

/// `PathBuf::join` on Unix: an absolute `p` replaces `base`; otherwise `p` is appended
/// after a separator (none is added when `base` is empty or already ends in one).
pub open spec fn join_spec(base: Seq<char>, p: Seq<char>) -> Seq<char> {
    if p.len() > 0 && p[0] == '/' {
        p
    } else if base.len() == 0 || base.last() == '/' {
        base + p
    } else {
        base + seq!['/'] + p
    }
}

/// A path is absolute when it starts with `/`.
pub open spec fn is_absolute(p: Seq<char>) -> bool {
    p.len() > 0 && p[0] == '/'
}

/// Whether a path string is absolute.
pub fn is_absolute_str(p: &str) -> (r: bool)
    ensures
        r == is_absolute(p@),
{
    let v = chars_of(p);
    v.len() > 0 && v[0] == '/'
}

/// Joins two path strings as `PathBuf::join` does.
pub fn join_path(base: &str, p: &str) -> (r: String)
    ensures
        r@ == join_spec(base@, p@),
{
    let pv = chars_of(p);
    if pv.len() > 0 && pv[0] == '/' {
        return String::from_str(p);
    }
    let bv = chars_of(base);
    let mut r = String::from_str(base);
    if !(bv.len() == 0 || bv[bv.len() - 1] == '/') {
        push_char(&mut r, '/');
    }
    r.append(p);
    r
}

/// The stem of a file name (`Path::file_stem`): the part before the last `.`,
/// or the whole name when that `.` is the first character or there is none.
pub open spec fn stem_of_name(name: Seq<char>) -> Seq<char> {
    let d = last_index_of(name, '.');
    if name == seq!['.', '.'] || d <= 0 {
        name
    } else {
        name.take(d)
    }
}

/// The stem of a path's file name.
pub open spec fn file_stem_of(s: Seq<char>) -> Option<Seq<char>> {
    match file_name_of(s) {
        Some(name) => Some(stem_of_name(name)),
        None => None,
    }
}

/// `Path::file_stem` of a path string.
pub fn file_stem(path: &str) -> (r: Option<String>)
    ensures
        match r {
            Some(st) => file_stem_of(path@) == Some(st@),
            None => file_stem_of(path@) is None,
        },
{
    let p = crate::text::chars_of(path);
    match file_name_vec(&p) {
        None => None,
        Some(name) => {
            if name.len() == 2 && name[0] == '.' && name[1] == '.' {
                assert(name@ =~= seq!['.', '.']);
                return Some(crate::text::string_of(&name));
            }
            match last_index_vec(&name, '.') {
                None => Some(crate::text::string_of(&name)),
                Some(d) => {
                    if d == 0 {
                        Some(crate::text::string_of(&name))
                    } else {
                        proof { lemma_last_index_of(name@, '.'); }
                        let st = slice_vec(&name, 0, d);
                        assert(st@ =~= name@.take(d as int));
                        Some(crate::text::string_of(&st))
                    }
                },
            }
        },
    }
}

} // verus!
