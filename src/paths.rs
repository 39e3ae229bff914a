//! Slash-separated paths as plain strings: joining, parent, extension, and the
//! part of a path below a root directory.

use vstd::prelude::*;

verus! {

pub open spec fn is_absolute(p: Seq<char>) -> bool {
    p.len() > 0 && p[0] == '/'
}

/// `rel` taken relative to `base`: an absolute `rel` stands for itself, and a
/// separator is put between the two only where `base` does not end in one.
pub open spec fn join_path(base: Seq<char>, rel: Seq<char>) -> Seq<char> {
    if is_absolute(rel) {
        rel
    } else if base.len() == 0 || base.last() == '/' {
        base + rel
    } else {
        base + seq!['/'] + rel
    }
}

/// The index of the last `c` in `s`, or -1.
pub open spec fn last_index_of(s: Seq<char>, c: char) -> int
    decreases s.len(),
{
    if s.len() == 0 {
        -1
    } else if s.last() == c {
        s.len() - 1
    } else {
        last_index_of(s.drop_last(), c)
    }
}

/// The last component of a path.
pub open spec fn file_name(p: Seq<char>) -> Seq<char> {
    p.skip(last_index_of(p, '/') + 1)
}

/// What follows the last dot of the file name, where that dot is not its
/// first character (a name such as `.hidden` has no extension).
pub open spec fn extension(p: Seq<char>) -> Option<Seq<char>> {
    let name = file_name(p);
    let dot = last_index_of(name, '.');
    if dot > 0 && name != seq!['.', '.'] {
        Some(name.skip(dot + 1))
    } else {
        None
    }
}

/// The directory that holds the path's last component: empty for a bare
/// name, none for the root or an empty path.
pub open spec fn parent(p: Seq<char>) -> Option<Seq<char>> {
    let k = last_index_of(p, '/');
    if p.len() == 0 || p == seq!['/'] {
        None
    } else if k < 0 {
        Some(seq![])
    } else if k == 0 {
        Some(seq!['/'])
    } else {
        Some(p.take(k))
    }
}

/// The part of `file` below the directory `root`, where `root` is one of its
/// ancestors or `file` itself. Characters are compared up to a `/` boundary,
/// which agrees with comparing components on canonical paths (no `.` or `..`
/// components, no repeated separators).
pub open spec fn relative_to(file: Seq<char>, root: Seq<char>) -> Option<Seq<char>> {
    if root.len() <= file.len() && file.take(root.len() as int) == root {
        if root.len() > 0 && root.last() == '/' {
            Some(file.skip(root.len() as int))
        } else if file.len() == root.len() {
            Some(seq![])
        } else if file[root.len() as int] == '/' {
            Some(file.skip(root.len() as int + 1))
        } else {
            None
        }
    } else {
        None
    }
}

/// Backslashes turned into forward slashes.
pub open spec fn forward_slashes(s: Seq<char>) -> Seq<char> {
    s.map_values(|c: char| if c == '\\' { '/' } else { c })
}

fn one_char(s: &str, i: usize, len: usize) -> (r: &str)
    requires
        len == s@.len(),
        i < len,
    ensures
        r@ == seq![s@[i as int]],
{
    let r = s.substring_char(i, i + 1);
    assert(r@ =~= seq![s@[i as int]]);
    r
}

pub fn path_is_absolute(p: &str) -> (r: bool)
    ensures
        r == is_absolute(p@),
{
    p.unicode_len() > 0 && p.get_char(0) == '/'
}

/// Joins a relative path onto a base directory.
pub fn path_join(base: &str, rel: &str) -> (r: String)
    ensures
        r@ == join_path(base@, rel@),
{
    if path_is_absolute(rel) {
        return rel.to_string();
    }
    let n = base.unicode_len();
    let mut r = base.to_string();
    if n > 0 && base.get_char(n - 1) != '/' {
        r.append("/");
        proof {
            reveal_strlit("/");
        }
    }
    r.append(rel);
    r
}

pub fn find_last(s: &str, c: char) -> (r: Option<usize>)
    ensures
        r is None ==> last_index_of(s@, c) == -1,
        r matches Some(i) ==> i == last_index_of(s@, c) && i < s@.len(),
{
    let mut i: usize = s.unicode_len();
    assert(s@.take(i as int) =~= s@);
    while i > 0
        invariant
            i <= s@.len(),
            last_index_of(s@, c) == last_index_of(s@.take(i as int), c),
        decreases i,
    {
        assert(s@.take(i as int).drop_last() =~= s@.take(i - 1));
        if s.get_char(i - 1) == c {
            return Some(i - 1);
        }
        i = i - 1;
    }
    None
}

/// The extension of the path's file name.
pub fn path_extension(p: &str) -> (r: Option<String>)
    ensures
        r matches Some(e) ==> extension(p@) == Some(e@),
        r is None ==> extension(p@) is None,
{
    let n = p.unicode_len();
    let start: usize = match find_last(p, '/') {
        Some(k) => k + 1,
        None => 0,
    };
    let name = p.substring_char(start, n);
    assert(name@ =~= file_name(p@));
    match find_last(name, '.') {
        Some(dot) => {
            proof {
                reveal_strlit("..");
                assert(".."@ =~= seq!['.', '.']);
            }
            if dot > 0 && !crate::text::str_eq(name, "..") {
                let ext = name.substring_char(dot + 1, name.unicode_len());
                assert(ext@ =~= name@.skip(dot + 1));
                Some(ext.to_string())
            } else {
                assert(name@ != seq!['.', '.'] ==> dot == 0);
                None
            }
        },
        None => None,
    }
}

/// The directory that holds the path's last component.
pub fn path_parent(p: &str) -> (r: Option<String>)
    ensures
        r matches Some(d) ==> parent(p@) == Some(d@),
        r is None ==> parent(p@) is None,
{
    let n = p.unicode_len();
    proof {
        reveal_strlit("/");
        assert("/"@ =~= seq!['/']);
    }
    if n == 0 || crate::text::str_eq(p, "/") {
        return None;
    }
    match find_last(p, '/') {
        None => Some(String::new()),
        Some(0) => Some("/".to_string()),
        Some(k) => {
            let d = p.substring_char(0, k);
            assert(d@ =~= p@.take(k as int));
            Some(d.to_string())
        },
    }
}

/// The part of `file` below the directory `root`, with forward slashes.
pub fn relative_path(file: &str, root: &str) -> (r: Option<String>)
    ensures
        r matches Some(s) ==> relative_to(file@, root@) matches Some(rel) && s@ == forward_slashes(rel),
        r is None ==> relative_to(file@, root@) is None,
{
    let nf = file.unicode_len();
    let nr = root.unicode_len();
    if nr > nf {
        return None;
    }
    let head = file.substring_char(0, nr);
    if !crate::text::str_eq(head, root) {
        return None;
    }
    let start: usize = if nr > 0 && root.get_char(nr - 1) == '/' {
        nr
    } else if nf == nr {
        nr
    } else if file.get_char(nr) == '/' {
        nr + 1
    } else {
        return None;
    };
    let mut out = String::new();
    let mut i: usize = start;
    while i < nf
        invariant
            start <= i <= nf,
            nf == file@.len(),
            out@ == forward_slashes(file@.subrange(start as int, i as int)),
        decreases nf - i,
    {
        let c = file.get_char(i);
        assert(file@[i as int] == c);
        assert(start <= i);
        assert(i < file@.len());
        if c == '\\' {
            proof {
                reveal_strlit("/");
                assert("/"@ =~= seq!['/']);
            }
            out.append("/");
        } else {
            out.append(one_char(file, i, nf));
        }
        let ghost sub = file@.subrange(start as int, i as int);
        assert(file@.subrange(start as int, i + 1) =~= sub.push(c));
        assert(forward_slashes(sub.push(c)) =~= forward_slashes(sub).push(
            if c == '\\' { '/' } else { c },
        ));
        i = i + 1;
        assert(out@ =~= forward_slashes(file@.subrange(start as int, i as int)));
    }
    assert(file@.subrange(start as int, nf as int) =~= file@.skip(start as int));
    Some(out)
}

} // verus!
