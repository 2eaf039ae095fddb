//! Path safety for staging, and pure path computations.
//!
//! Logical paths are forward-slash separated and relative. Staging must
//! never write outside the workspace root, so a path is safe only if it
//! is non-empty, not absolute, and free of `..` segments.

use vstd::prelude::*;

verus! {

/// Whether a `..` segment starts at index `i` of `s`: preceded by a
/// separator or the start, followed by a separator or the end.
pub open spec fn dotdot_at(s: Seq<char>, i: int) -> bool {
    &&& 0 <= i
    &&& i + 2 <= s.len()
    &&& (i == 0 || s[i - 1] == '/')
    &&& s[i] == '.'
    &&& s[i + 1] == '.'
    &&& (i + 2 == s.len() || s[i + 2] == '/')
}

/// Whether a logical path may be staged: non-empty, relative, and
/// without any parent-directory segment.
pub open spec fn path_is_safe(s: Seq<char>) -> bool {
    &&& s.len() > 0
    &&& s[0] != '/'
    &&& !(exists|i: int| dotdot_at(s, i))
}

/// Decides `path_is_safe` for a real path string.
pub fn check_path(name: &str) -> (r: bool)
    ensures
        r == path_is_safe(name@),
{
    let n = name.unicode_len();
    if n == 0 {
        return false;
    }
    if name.get_char(0) == '/' {
        return false;
    }
    let mut i: usize = 0;
    while i < n
        invariant
            n == name@.len(),
            i <= n,
            forall|j: int| 0 <= j < i ==> !dotdot_at(name@, j),
        decreases n - i,
    {
        if n - i >= 2 {
            let prev_ok = if i == 0 {
                true
            } else {
                name.get_char(i - 1) == '/'
            };
            if prev_ok && name.get_char(i) == '.' && name.get_char(i + 1) == '.' {
                let next_ok = if i + 2 == n {
                    true
                } else {
                    name.get_char(i + 2) == '/'
                };
                if next_ok {
                    proof {
                        assert(dotdot_at(name@, i as int));
                    }
                    return false;
                }
            }
        }
        proof {
            assert(!dotdot_at(name@, i as int));
        }
        i = i + 1;
    }
    proof {
        assert forall|j: int| !dotdot_at(name@, j) by {
            if dotdot_at(name@, j) {
                assert(0 <= j < n);
            }
        }
    }
    true
}

/// The index where the base name of `s` starts: just past the last
/// separator, or the start when there is none.
pub open spec fn base_start(s: Seq<char>) -> int
    decreases s.len(),
{
    if s.len() == 0 {
        0
    } else if s[s.len() - 1] == '/' {
        s.len() as int
    } else {
        base_start(s.drop_last())
    }
}

/// The base name of `s`: everything past the last separator.
pub open spec fn basename(s: Seq<char>) -> Seq<char> {
    s.subrange(base_start(s), s.len() as int)
}

/// The index of the last `.` in `b`, or `-1` when there is none.
pub open spec fn last_dot(b: Seq<char>) -> int
    decreases b.len(),
{
    if b.len() == 0 {
        -1
    } else if b[b.len() - 1] == '.' {
        b.len() - 1
    } else {
        last_dot(b.drop_last())
    }
}

/// The stem of a base name: everything before the last `.`, unless the
/// only `.` leads the name (a bare dotfile keeps its full name).
pub open spec fn stem(b: Seq<char>) -> Seq<char> {
    let d = last_dot(b);
    if d <= 0 {
        b
    } else {
        b.subrange(0, d)
    }
}

/// The artifact file the compiler is expected to leave at the workspace
/// root for a given main entry: the entry's base name, its extension
/// replaced by `.pdf`.
pub open spec fn artifact_name_spec(main: Seq<char>) -> Seq<char> {
    stem(basename(main)) + ".pdf"@
}

/// `base_start` is the unique cut: preceded by a separator (or the
/// start), with no separator after it.
proof fn lemma_base_start_char(s: Seq<char>, p: int)
    requires
        0 <= p <= s.len(),
        p == 0 || s[p - 1] == '/',
        forall|j: int| p <= j < s.len() ==> s[j] != '/',
    ensures
        base_start(s) == p,
    decreases s.len(),
{
    if s.len() == 0 {
    } else if s[s.len() - 1] == '/' {
        assert(p == s.len());
    } else {
        assert(p < s.len());
        lemma_base_start_char(s.drop_last(), p);
    }
}

/// `last_dot` is the unique index of a `.` with no later `.`, or `-1`.
proof fn lemma_last_dot_char(b: Seq<char>, d: int)
    requires
        -1 <= d < b.len(),
        d == -1 || b[d] == '.',
        forall|j: int| d < j < b.len() ==> b[j] != '.',
    ensures
        last_dot(b) == d,
    decreases b.len(),
{
    if b.len() == 0 {
    } else if b[b.len() - 1] == '.' {
        assert(d == b.len() - 1);
    } else {
        assert(d < b.len() - 1);
        lemma_last_dot_char(b.drop_last(), d);
    }
}

/// Computes the expected artifact name for a main entry: base name with
/// the extension replaced by `.pdf`.
pub fn artifact_name(main: &str) -> (r: String)
    ensures
        r@ == artifact_name_spec(main@),
{
    let n = main.unicode_len();
    let mut bs: usize = 0;  // just past the last '/' seen
    let mut dot: usize = 0;  // just past the last '.' seen; 0 for none
    let mut i: usize = 0;
    while i < n
        invariant
            n == main@.len(),
            i <= n,
            bs <= i,
            bs == 0 || main@[bs - 1] == '/',
            forall|j: int| bs <= j < i ==> main@[j] != '/',
            dot <= i,
            dot == 0 || main@[dot - 1] == '.',
            forall|j: int| dot <= j < i ==> main@[j] != '.',
        decreases n - i,
    {
        let c = main.get_char(i);
        if c == '/' {
            bs = i + 1;
        }
        if c == '.' {
            dot = i + 1;
        }
        i = i + 1;
    }
    proof {
        lemma_base_start_char(main@, bs as int);
    }
    let se: usize = if dot >= 1 && dot - 1 > bs {
        dot - 1
    } else {
        n
    };
    proof {
        let s = main@;
        let b = basename(s);
        if dot == 0 {
            lemma_last_dot_char(b, -1);
        } else {
            let d = dot as int - 1;
            if d >= bs {
                lemma_last_dot_char(b, d - bs);
            } else {
                lemma_last_dot_char(b, -1);
            }
        }
        assert(stem(b) =~= s.subrange(bs as int, se as int));
    }
    let stem_str = main.substring_char(bs, se);
    let mut out = String::from_str(stem_str);
    out.append(".pdf");
    out
}

/// Resolves a relative path against a workspace root without touching
/// the filesystem: the root, a separator, and the relative path. A path
/// that is not safe does not resolve, so the result can never leave the
/// root.
pub fn resolve(root: &str, rel: &str) -> (r: Option<String>)
    ensures
        match r {
            Some(p) => path_is_safe(rel@) && p@ == root@ + "/"@ + rel@,
            None => !path_is_safe(rel@),
        },
{
    if !check_path(rel) {
        return None;
    }
    let mut s = String::from_str(root);
    s.append("/");
    s.append(rel);
    Some(s)
}

} // verus!
