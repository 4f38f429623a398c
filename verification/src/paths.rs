//! A plain-string model of filesystem paths.
//!
//! Paths are `/`-separated strings. The scanner and the classifier reason
//! about names, extensions, joined paths and ancestor prefixes entirely in
//! this model; the embedding program converts between OS paths and strings.
use vstd::prelude::*;
use vstd::string::StrSliceExecFns;

verus! {

/// The largest index at which `c` occurs in `s`, if any.
pub open spec fn find_last(s: Seq<char>, c: char) -> Option<int>
    decreases s.len(),
{
    if s.len() == 0 {
        None
    } else if s.last() == c {
        Some(s.len() - 1)
    } else {
        find_last(s.drop_last(), c)
    }
}

pub proof fn lemma_find_last(s: Seq<char>, c: char)
    ensures
        match find_last(s, c) {
            Some(i) => 0 <= i < s.len() && s[i] == c && (forall|j: int|
                i < j < s.len() ==> s[j] != c),
            None => forall|j: int| 0 <= j < s.len() ==> s[j] != c,
        },
    decreases s.len(),
{
    if s.len() > 0 && s.last() != c {
        lemma_find_last(s.drop_last(), c);
        assert(forall|j: int|
            0 <= j < s.len() - 1 ==> s[j] == s.drop_last()[j]);
    }
}

/// Dropping a suffix free of `c` does not change where `c` last occurs.
pub proof fn lemma_find_last_clean_suffix(s: Seq<char>, c: char, i: int)
    requires
        0 <= i <= s.len(),
        forall|j: int| i <= j < s.len() ==> s[j] != c,
    ensures
        find_last(s, c) == find_last(s.subrange(0, i), c),
    decreases s.len() - i,
{
    if i < s.len() {
        assert(s.subrange(0, s.len() as int) =~= s);
        lemma_find_last_clean_suffix(s, c, i + 1);
        assert(s.subrange(0, i + 1).drop_last() =~= s.subrange(0, i));
    } else {
        assert(s.subrange(0, i) =~= s);
    }
}

/// The index of the last occurrence of `c` in `s`, scanned executably.
pub fn find_last_char(s: &str, c: char) -> (r: Option<usize>)
    ensures
        match r {
            Some(i) => find_last(s@, c) == Some(i as int),
            None => find_last(s@, c) is None,
        },
{
    let n = s.unicode_len();
    let mut i = n;
    proof {
        assert(s@.subrange(0, n as int) =~= s@);
    }
    while i > 0
        invariant
            i <= n,
            n == s@.len(),
            find_last(s@, c) == find_last(s@.subrange(0, i as int), c),
        decreases i,
    {
        i = i - 1;
        if s.get_char(i) == c {
            proof {
                assert(s@.subrange(0, i + 1).last() == s@[i as int]);
                assert(find_last(s@.subrange(0, i + 1), c) == Some(i as int));
            }
            return Some(i);
        }
        proof {
            assert(s@.subrange(0, i + 1).drop_last() =~= s@.subrange(0, i as int));
        }
    }
    proof {
        assert(s@.subrange(0, 0) =~= Seq::<char>::empty());
    }
    None
}

/// The part of a path after its last separator (the whole path if it has
/// none).
pub open spec fn file_name_spec(p: Seq<char>) -> Seq<char> {
    match find_last(p, '/') {
        Some(i) => p.subrange(i + 1, p.len() as int),
        None => p,
    }
}

pub fn file_name_of(p: &str) -> (r: String)
    ensures
        r@ == file_name_spec(p@),
{
    let n = p.unicode_len();
    match find_last_char(p, '/') {
        Some(i) => {
            proof {
                lemma_find_last(p@, '/');
            }
            p.substring_char(i + 1, n).to_owned()
        },
        None => p.to_owned(),
    }
}

/// The lowercase form of one character, for the ASCII letters only.
pub open spec fn lower_char(c: char) -> char {
    if 'A' <= c && c <= 'Z' {
        ((c as u8) + 32) as char
    } else {
        c
    }
}

pub open spec fn lower_spec(s: Seq<char>) -> Seq<char> {
    s.map_values(|c: char| lower_char(c))
}

/// ASCII-lowercases a string. Characters outside `A`..`Z` are kept as they
/// are.
pub fn to_ascii_lower(s: &str) -> (r: String)
    ensures
        r@ == lower_spec(s@),
{
    let n = s.unicode_len();
    let mut out = String::new();
    let mut i: usize = 0;
    while i < n
        invariant
            i <= n,
            n == s@.len(),
            out@ == lower_spec(s@.subrange(0, i as int)),
        decreases n - i,
    {
        let c = s.get_char(i);
        let l: char = if c >= 'A' && c <= 'Z' {
            (((c as u8) + 32)) as char
        } else {
            c
        };
        out.push(l);
        proof {
            assert(s@.subrange(0, i + 1).drop_last() =~= s@.subrange(0, i as int));
            assert(lower_spec(s@.subrange(0, i + 1)) =~= lower_spec(
                s@.subrange(0, i as int),
            ).push(lower_char(s@[i as int])));
        }
        i = i + 1;
    }
    proof {
        assert(s@.subrange(0, n as int) =~= s@);
    }
    out
}

/// The extension of a path: what follows the last `.` of its file name,
/// unless that `.` starts the file name.
pub open spec fn extension_spec(p: Seq<char>) -> Option<Seq<char>> {
    let name = file_name_spec(p);
    match find_last(name, '.') {
        Some(i) => if i > 0 {
            Some(name.subrange(i + 1, name.len() as int))
        } else {
            None
        },
        None => None,
    }
}

/// The extension of a path, ASCII-lowercased.
pub open spec fn extension_lower_spec(p: Seq<char>) -> Option<Seq<char>> {
    match extension_spec(p) {
        Some(e) => Some(lower_spec(e)),
        None => None,
    }
}

pub fn extension_lower(p: &str) -> (r: Option<String>)
    ensures
        match r {
            Some(e) => extension_lower_spec(p@) == Some(e@),
            None => extension_lower_spec(p@) is None,
        },
{
    let name = file_name_of(p);
    let n = name.as_str().unicode_len();
    match find_last_char(name.as_str(), '.') {
        Some(i) => {
            if i > 0 {
                proof {
                    lemma_find_last(name@, '.');
                }
                let ext = name.as_str().substring_char(i + 1, n);
                Some(to_ascii_lower(ext))
            } else {
                None
            }
        },
        None => None,
    }
}

/// `root` with `name` appended after a separator (none added if `root`
/// already ends with one).
pub open spec fn join_spec(root: Seq<char>, name: Seq<char>) -> Seq<char> {
    if root.len() > 0 && root.last() == '/' {
        root + name
    } else {
        root + seq!['/'] + name
    }
}

pub fn join_path(root: &str, name: &str) -> (r: String)
    ensures
        r@ == join_spec(root@, name@),
{
    let n = root.unicode_len();
    let mut out = root.to_owned();
    if n == 0 || root.get_char(n - 1) != '/' {
        out.push('/');
        proof {
            assert(out@ =~= root@ + seq!['/']);
        }
    }
    out.append(name);
    proof {
        if n > 0 && root@.last() == '/' {
            assert(out@ =~= root@ + name@);
        } else {
            assert(out@ =~= root@ + seq!['/'] + name@);
        }
    }
    out
}

/// What is left of `path` after removing the prefix `anc` and one
/// separator, when `anc` is a proper ancestor of `path`.
pub open spec fn strip_ancestor_spec(path: Seq<char>, anc: Seq<char>) -> Option<Seq<char>> {
    if anc.len() + 1 < path.len() && path.subrange(0, anc.len() as int) == anc && path[anc.len() as int]
        == '/' {
        Some(path.subrange(anc.len() as int + 1, path.len() as int))
    } else {
        None
    }
}

pub fn strip_ancestor(path: &str, anc: &str) -> (r: Option<String>)
    ensures
        match r {
            Some(s) => strip_ancestor_spec(path@, anc@) == Some(s@),
            None => strip_ancestor_spec(path@, anc@) is None,
        },
{
    let np = path.unicode_len();
    let na = anc.unicode_len();
    if na >= np {
        return None;
    }
    if na + 1 >= np {
        return None;
    }
    if path.get_char(na) != '/' {
        return None;
    }
    let mut i: usize = 0;
    while i < na
        invariant
            i <= na,
            na == anc@.len(),
            np == path@.len(),
            na + 1 < np,
            forall|j: int| 0 <= j < i ==> path@[j] == anc@[j],
        decreases na - i,
    {
        if path.get_char(i) != anc.get_char(i) {
            proof {
                assert(path@.subrange(0, na as int)[i as int] != anc@[i as int]);
            }
            return None;
        }
        i = i + 1;
    }
    proof {
        assert(path@.subrange(0, na as int) =~= anc@);
    }
    Some(path.substring_char(na + 1, np).to_owned())
}

} // verus!
