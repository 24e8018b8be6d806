//! Relative path validation and containment of resolved paths.
use crate::error::LoaderError;
use crate::text::{
    alpha_char, chars_of, drop_empty, is_alpha, is_white, keep_nonempty, range_eq, split_char,
    split_pieces, string_from, views, white,
};
use vstd::prelude::*;

verus! {

/// A path separator of Windows (`/` or `\`).
pub open spec fn is_sep(c: char) -> bool {
    c == '/' || c == '\\'
}

/// Whether a `.` or `..` segment starts at index `i` of `s`.
pub open spec fn dot_segment_at(s: Seq<char>, i: int) -> bool {
    &&& 0 <= i < s.len()
    &&& i == 0 || is_sep(s[i - 1])
    &&& s[i] == '.'
    &&& {
        ||| i + 1 == s.len()
        ||| is_sep(s[i + 1])
        ||| s[i + 1] == '.' && (i + 2 == s.len() || is_sep(s[i + 2]))
    }
}

/// A plain relative path: not blank, no NUL, no root, no drive prefix, no UNC
/// prefix and no `.` or `..` segment.
pub open spec fn relative_ok(s: Seq<char>) -> bool {
    &&& exists|i: int| 0 <= i < s.len() && !is_white(#[trigger] s[i])
    &&& forall|i: int| 0 <= i < s.len() ==> s[i] != '\0'
    &&& !(s.len() > 0 && is_sep(s[0]))
    &&& !(s.len() >= 2 && is_alpha(s[0]) && s[1] == ':')
    &&& forall|i: int| !dot_segment_at(s, i)
}

/// `s` with every `\` written as `/`.
pub open spec fn unify(s: Seq<char>) -> Seq<char> {
    s.map_values(|c: char| if c == '\\' { '/' } else { c })
}

/// The non-empty components of a path.
pub open spec fn components(s: Seq<char>) -> Seq<Seq<char>> {
    drop_empty(split_char(unify(s), '/'))
}

/// Whether the components of `root` are a prefix of those of `child`
/// (as `Path::starts_with`).
pub open spec fn within(child: Seq<char>, root: Seq<char>) -> bool {
    let c = components(child);
    let r = components(root);
    r.len() <= c.len() && c.take(r.len() as int) == r
}

/// Accept `value` only when it is a plain relative path (see `relative_ok`);
/// the path is returned unchanged. A refused path is reported as `UnsafePath`.
pub fn validate_relative(value: &str) -> (r: Result<String, LoaderError>)
    ensures
        r is Ok <==> relative_ok(value@),
        r matches Ok(p) ==> p@ == value@,
        r matches Err(e) ==> e matches LoaderError::UnsafePath(p) && p@ == value@,
{
    let v = chars_of(value);
    let n = v.len();
    let mut seen_text = false;
    let mut i: usize = 0;
    while i < n
        invariant
            n == v@.len(),
            v@ == value@,
            i <= n,
            seen_text <==> exists|j: int| 0 <= j < i && !is_white(#[trigger] v@[j]),
            forall|j: int| 0 <= j < i ==> v@[j] != '\0',
            forall|j: int| 0 <= j < i ==> !dot_segment_at(v@, j),
        decreases n - i,
    {
        let c = v[i];
        if c == '\0' {
            return Err(LoaderError::UnsafePath(value.to_owned()));
        }
        if !white(c) {
            seen_text = true;
        }
        if c == '.' && (i == 0 || v[i - 1] == '/' || v[i - 1] == '\\') {
            let end_one = i + 1 == n || v[i + 1] == '/' || v[i + 1] == '\\';
            let end_two = i + 1 < n && v[i + 1] == '.' && (i + 2 == n || v[i + 2] == '/' || v[i
                + 2] == '\\');
            if end_one || end_two {
                proof {
                    assert(dot_segment_at(v@, i as int));
                }
                return Err(LoaderError::UnsafePath(value.to_owned()));
            }
        }
        i = i + 1;
    }
    if !seen_text {
        return Err(LoaderError::UnsafePath(value.to_owned()));
    }
    if n > 0 && (v[0] == '/' || v[0] == '\\') {
        return Err(LoaderError::UnsafePath(value.to_owned()));
    }
    if n >= 2 && alpha_char(v[0]) && v[1] == ':' {
        return Err(LoaderError::UnsafePath(value.to_owned()));
    }
    proof {
        assert forall|j: int| !dot_segment_at(v@, j) by {
            if 0 <= j < n {
            }
        }
    }
    Ok(value.to_owned())
}

/// The characters of `s` with every `\\` written as `/`.
pub fn forward_chars(s: &str) -> (u: Vec<char>)
    ensures
        u@ == unify(s@),
{
    let v = chars_of(s);
    let mut u: Vec<char> = Vec::new();
    let mut i: usize = 0;
    while i < v.len()
        invariant
            i <= v@.len(),
            v@ == s@,
            u@ == unify(v@).take(i as int),
        decreases v@.len() - i,
    {
        let c = if v[i] == '\\' {
            '/'
        } else {
            v[i]
        };
        u.push(c);
        proof {
            assert(unify(v@).take(i + 1) =~= unify(v@).take(i as int).push(c));
        }
        i = i + 1;
    }
    proof {
        assert(unify(v@).take(v@.len() as int) =~= unify(v@));
    }
    u
}

/// `s` with every `\\` written as `/`.
pub fn forward_slashes(s: &str) -> (r: String)
    ensures
        r@ == unify(s@),
{
    let u = forward_chars(s);
    string_from(u.as_slice())
}

/// The non-empty components of `s`, `\\` and `/` both separating.
pub fn components_of(s: &str) -> (r: Vec<Vec<char>>)
    ensures
        views(r@) == components(s@),
{
    let u = forward_chars(s);
    let pieces = split_pieces(&u, '/');
    keep_nonempty(&pieces)
}

/// Whether `child` lies inside `root`, component by component.
pub fn path_within(child: &str, root: &str) -> (r: bool)
    ensures
        r == within(child@, root@),
{
    let c = components_of(child);
    let p = components_of(root);
    if p.len() > c.len() {
        return false;
    }
    let mut k: usize = 0;
    while k < p.len()
        invariant
            p@.len() <= c@.len(),
            k <= p@.len(),
            views(c@) == components(child@),
            views(p@) == components(root@),
            forall|j: int| 0 <= j < k ==> (#[trigger] c@[j])@ == p@[j]@,
        decreases p@.len() - k,
    {
        proof {
            assert(c@[k as int]@.subrange(0, c@[k as int]@.len() as int) =~= c@[k as int]@);
        }
        if !range_eq(&c[k], 0, c[k].len(), &p[k]) {
            proof {
                assert(views(c@).take(p@.len() as int)[k as int] == c@[k as int]@);
                assert(views(p@)[k as int] == p@[k as int]@);
            }
            return false;
        }
        k = k + 1;
    }
    proof {
        assert(views(c@).take(p@.len() as int) =~= views(p@));
    }
    true
}

/// Decide a path below `root_real` (the canonical game or archive root).
/// `ancestor_real` is the canonical form of the nearest existing ancestor of
/// the joined path (`None` when none exists) and `candidate_real` that of the
/// joined path itself when it exists. The relative path is accepted only when
/// it is plain and both canonical forms stay inside the root; it is returned
/// to be joined to the root.
pub fn resolve_inside(
    root_real: &str,
    relative: &str,
    ancestor_real: Option<&str>,
    candidate_real: Option<&str>,
) -> (r: Result<String, LoaderError>)
    ensures
        r is Ok <==> relative_ok(relative@) && ancestor_real is Some && within(
            ancestor_real.unwrap()@,
            root_real@,
        ) && (candidate_real is None || within(candidate_real.unwrap()@, root_real@)),
        r matches Ok(p) ==> p@ == relative@,
        r matches Err(e) ==> e matches LoaderError::UnsafePath(p) && p@ == relative@,
{
    let rel = validate_relative(relative)?;
    match ancestor_real {
        None => {
            return Err(LoaderError::UnsafePath(relative.to_owned()));
        },
        Some(a) => {
            if !path_within(a, root_real) {
                return Err(LoaderError::UnsafePath(relative.to_owned()));
            }
        },
    }
    if let Some(c) = candidate_real {
        if !path_within(c, root_real) {
            return Err(LoaderError::UnsafePath(relative.to_owned()));
        }
    }
    Ok(rel)
}

} // verus!
