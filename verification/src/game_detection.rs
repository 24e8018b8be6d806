//! Recognising a game folder: required files, and Steam's library and app
//! manifests (`"key" "value"` lines).
use crate::error::LoaderError;
use crate::security::path::resolve_inside;
use crate::text::{
    blank, chars_of, eq_ignore_case, slice_vec, split_char, split_chars, str_eq_ignore_case,
    string_from, trim, trim_bounds, views, join_str,
};
use vstd::prelude::*;

verus! {

/// The pieces of `p` that are not blank, in order.
pub open spec fn non_blank(p: Seq<Seq<char>>) -> Seq<Seq<char>>
    decreases p.len(),
{
    if p.len() == 0 {
        p
    } else {
        let r = non_blank(p.drop_last());
        if trim(p.last()).len() > 0 {
            r.push(p.last())
        } else {
            r
        }
    }
}

/// The value of a `"key" "value"` line: of the non-blank pieces between
/// quotes, the second (trimmed) where the first (trimmed) is `key`, ASCII
/// case ignored.
pub open spec fn line_value(line: Seq<char>, key: Seq<char>) -> Option<Seq<char>> {
    let parts = non_blank(split_char(line, '"'));
    if parts.len() >= 2 && eq_ignore_case(trim(parts[0]), key) {
        Some(trim(parts[1]))
    } else {
        None
    }
}

/// The values of `key` in a VDF/ACF text, line by line in order.
pub open spec fn values_of(lines: Seq<Seq<char>>, key: Seq<char>) -> Seq<Seq<char>>
    decreases lines.len(),
{
    if lines.len() == 0 {
        Seq::empty()
    } else {
        let r = values_of(lines.drop_last(), key);
        match line_value(lines.last(), key) {
            Some(v) => r.push(v),
            None => r,
        }
    }
}

/// The values of `key` in `text` (a line break is `\n`; a `\r` before it
/// is white space and trimmed with the rest).
pub open spec fn quoted(text: Seq<char>, key: Seq<char>) -> Seq<Seq<char>> {
    values_of(split_char(text, '\n'), key)
}

/// The number of lines among `lines` that give `key` a value.
pub open spec fn key_lines(lines: Seq<Seq<char>>, key: Seq<char>) -> int
    decreases lines.len(),
{
    if lines.len() == 0 {
        0
    } else {
        key_lines(lines.drop_last(), key) + if line_value(lines.last(), key) is Some {
            1int
        } else {
            0int
        }
    }
}

proof fn lemma_values_of_lines(lines: Seq<Seq<char>>, key: Seq<char>)
    ensures
        values_of(lines, key).len() == key_lines(lines, key),
        forall|j: int|
            0 <= j < lines.len() && (#[trigger] line_value(lines[j], key)) is Some ==> values_of(
                lines,
                key,
            )[key_lines(lines.take(j), key)] == line_value(lines[j], key)->0,
    decreases lines.len(),
{
    if lines.len() > 0 {
        let init = lines.drop_last();
        lemma_values_of_lines(init, key);
        assert forall|j: int|
            0 <= j < lines.len() && (#[trigger] line_value(lines[j], key)) is Some implies values_of(
                lines,
                key,
            )[key_lines(lines.take(j), key)] == line_value(lines[j], key)->0 by {
            let v = line_value(lines[j], key)->0;
            if j == lines.len() - 1 {
                assert(lines.take(j) =~= init);
                assert(lines.last() == lines[j]);
                assert(values_of(lines, key) == values_of(init, key).push(v));
                assert(key_lines(lines.take(j), key) == values_of(init, key).len());
                assert(values_of(lines, key)[key_lines(lines.take(j), key)] == v);
            } else {
                assert(lines.take(j) =~= init.take(j));
                assert(init[j] == lines[j]);
                lemma_key_lines_bound(init, key, j);
                let idx = key_lines(init.take(j), key);
                lemma_key_lines_nonneg(init.take(j), key);
                assert(line_value(init[j], key) is Some);
                assert(values_of(init, key)[idx] == v);
                assert(idx < values_of(init, key).len());
                match line_value(lines.last(), key) {
                    Some(w) => {
                        assert(values_of(lines, key) == values_of(init, key).push(w));
                        assert(values_of(init, key).push(w)[idx] == values_of(init, key)[idx]);
                    },
                    None => {
                        assert(values_of(lines, key) == values_of(init, key));
                    },
                }
                assert(values_of(lines, key)[idx] == v);
            }
        }
    }
}

proof fn lemma_key_lines_nonneg(lines: Seq<Seq<char>>, key: Seq<char>)
    ensures
        key_lines(lines, key) >= 0,
    decreases lines.len(),
{
    if lines.len() > 0 {
        lemma_key_lines_nonneg(lines.drop_last(), key);
    }
}

proof fn lemma_key_lines_bound(lines: Seq<Seq<char>>, key: Seq<char>, j: int)
    requires
        0 <= j < lines.len(),
        line_value(lines[j], key) is Some,
    ensures
        key_lines(lines.take(j), key) < key_lines(lines, key),
    decreases lines.len(),
{
    if j < lines.len() - 1 {
        assert(lines.drop_last().take(j) =~= lines.take(j));
        assert(lines.drop_last()[j] == lines[j]);
        lemma_key_lines_bound(lines.drop_last(), key, j);
    } else {
        assert(lines.take(j) =~= lines.drop_last());
    }
}

/// Law: the values of `key` in a text are one per line that gives the key a
/// value, in line order: there are as many as such lines, and the line
/// `j` gives the value at the place counted by the such lines before it.
/// So every Steam library a `libraryfolders.vdf` names is found.
pub proof fn law_every_key_line_counts(text: Seq<char>, key: Seq<char>)
    ensures
        ({
            let ls = split_char(text, '\n');
            &&& quoted(text, key).len() == key_lines(ls, key)
            &&& forall|j: int|
                0 <= j < ls.len() && (#[trigger] line_value(ls[j], key)) is Some ==> quoted(
                    text,
                    key,
                )[key_lines(ls.take(j), key)] == line_value(ls[j], key)->0
        }),
{
    lemma_values_of_lines(split_char(text, '\n'), key);
}

fn trimmed(v: &Vec<char>) -> (r: Vec<char>)
    ensures
        r@ == trim(v@),
{
    let (a, b) = trim_bounds(v, 0, v.len());
    proof {
        assert(v@.subrange(0, v@.len() as int) =~= v@);
    }
    slice_vec(v, a, b)
}

fn keep_non_blank(p: &Vec<Vec<char>>) -> (r: Vec<Vec<char>>)
    ensures
        views(r@) == non_blank(views(p@)),
{
    let mut out: Vec<Vec<char>> = Vec::new();
    let mut k: usize = 0;
    while k < p.len()
        invariant
            k <= p@.len(),
            views(out@) == non_blank(views(p@).take(k as int)),
        decreases p@.len() - k,
    {
        proof {
            assert(views(p@).take(k + 1).drop_last() =~= views(p@).take(k as int));
            assert(views(p@).take(k + 1).last() == p@[k as int]@);
        }
        let t = trimmed(&p[k]);
        if t.len() > 0 {
            let x = slice_vec(&p[k], 0, p[k].len());
            proof {
                assert(x@ =~= p@[k as int]@);
            }
            let ghost before = out@;
            out.push(x);
            proof {
                assert(views(out@) =~= views(before).push(x@));
            }
        }
        k = k + 1;
    }
    assert(views(p@).take(p@.len() as int) =~= views(p@));
    out
}

/// See `line_value`.
fn line_value_exec(line: &Vec<char>, key: &Vec<char>) -> (r: Option<Vec<char>>)
    ensures
        match r {
            Some(v) => line_value(line@, key@) == Some(v@),
            None => line_value(line@, key@) is None,
        },
{
    let pieces = split_chars(line, '"');
    proof {
        assert(views(pieces@) =~= split_char(line@, '"'));
    }
    let parts = keep_non_blank(&pieces);
    if parts.len() < 2 {
        return None;
    }
    proof {
        assert(views(parts@)[0] == parts@[0]@);
        assert(views(parts@)[1] == parts@[1]@);
    }
    let found = trimmed(&parts[0]);
    let f = string_from(found.as_slice());
    let k = string_from(key.as_slice());
    if !str_eq_ignore_case(f.as_str(), k.as_str()) {
        return None;
    }
    Some(trimmed(&parts[1]))
}

/// The values of `key` in a Steam VDF/ACF text (see `quoted`).
pub fn quoted_values(text: &str, key: &str) -> (r: Vec<String>)
    ensures
        crate::text::string_views(r@) == quoted(text@, key@),
{
    let t = chars_of(text);
    let k = chars_of(key);
    let lines = split_chars(&t, '\n');
    let ghost ls = split_char(text@, '\n');
    let mut out: Vec<String> = Vec::new();
    let mut i: usize = 0;
    while i < lines.len()
        invariant
            i <= lines@.len(),
            lines@.len() == ls.len(),
            ls == split_char(text@, '\n'),
            k@ == key@,
            forall|j: int| 0 <= j < lines@.len() ==> (#[trigger] lines@[j])@ == ls[j],
            crate::text::string_views(out@) == values_of(ls.take(i as int), key@),
        decreases lines@.len() - i,
    {
        proof {
            assert(ls.take(i + 1).drop_last() =~= ls.take(i as int));
            assert(ls.take(i + 1).last() == lines@[i as int]@);
        }
        match line_value_exec(&lines[i], &k) {
            Some(v) => {
                let s = string_from(v.as_slice());
                let ghost before = out@;
                out.push(s);
                proof {
                    assert(crate::text::string_views(out@) =~= crate::text::string_views(before).push(s@));
                }
            },
            None => {},
        }
        i = i + 1;
    }
    assert(ls.take(lines@.len() as int) =~= ls);
    out
}

/// What the caller found for one required file: where its deepest existing
/// ancestor and the file itself resolve (`None` where they do not), and
/// whether it is a regular file.
pub struct FileProbe {
    pub ancestor_real: Option<String>,
    pub candidate_real: Option<String>,
    pub is_file: bool,
}

/// The required file `rel` resolves inside `root` (see `resolve_inside`).
pub open spec fn resolves(root: Seq<char>, rel: Seq<char>, p: FileProbe) -> bool {
    &&& crate::security::path::relative_ok(rel)
    &&& p.ancestor_real matches Some(a) && crate::security::path::within(a@, root)
    &&& (p.candidate_real matches Some(c) ==> crate::security::path::within(c@, root))
}

/// The required file `rel` resolves inside `root` and is a regular file.
pub open spec fn file_ok(root: Seq<char>, rel: Seq<char>, p: FileProbe) -> bool {
    resolves(root, rel, p) && p.is_file
}

/// The refusal for required file `rel` when it is not `file_ok`: an unsafe
/// path where it does not resolve inside the root, else a missing file.
pub open spec fn file_refusal(root: Seq<char>, rel: Seq<char>, p: FileProbe, e: LoaderError) -> bool {
    if resolves(root, rel, p) {
        e matches LoaderError::Manifest(m) && m@ == "Zorunlu oyun dosyası eksik: "@ + rel
    } else {
        e matches LoaderError::UnsafePath(u) && u@ == rel
    }
}

/// A game folder is accepted when it is a folder and every required file
/// resolves inside it (see `resolve_inside`) and is a regular file; else the
/// first failure is reported.
pub fn validate_root(root_is_dir: bool, root_real: &str, required: &Vec<String>, probes: &Vec<FileProbe>) -> (r:
    Result<(), LoaderError>)
    requires
        probes@.len() == required@.len(),
    ensures
        r is Ok <==> root_is_dir && forall|i: int|
            0 <= i < required@.len() ==> file_ok(root_real@, required@[i]@, #[trigger] probes@[i]),
        !root_is_dir ==> (r matches Err(LoaderError::Manifest(m)) && m@
            == "Seçilen oyun dizini mevcut değil"@),
        root_is_dir && r is Err ==> exists|k: int|
            #![trigger probes@[k]]
            0 <= k < required@.len() && (forall|j: int|
                0 <= j < k ==> file_ok(root_real@, required@[j]@, #[trigger] probes@[j]))
                && !file_ok(root_real@, required@[k]@, probes@[k]) && file_refusal(
                root_real@,
                required@[k]@,
                probes@[k],
                r->Err_0,
            ),
{
    if !root_is_dir {
        return Err(LoaderError::Manifest("Seçilen oyun dizini mevcut değil".to_owned()));
    }
    let mut i: usize = 0;
    while i < required.len()
        invariant
            root_is_dir,
            i <= required@.len(),
            probes@.len() == required@.len(),
            forall|j: int| 0 <= j < i ==> file_ok(root_real@, required@[j]@, #[trigger] probes@[j]),
        decreases required@.len() - i,
    {
        let p = &probes[i];
        let ancestor = match &p.ancestor_real {
            Some(a) => Some(a.as_str()),
            None => None,
        };
        let candidate = match &p.candidate_real {
            Some(c) => Some(c.as_str()),
            None => None,
        };
        match resolve_inside(root_real, required[i].as_str(), ancestor, candidate) {
            Ok(_) => {},
            Err(e) => {
                proof {
                    assert(!resolves(root_real@, required@[i as int]@, probes@[i as int]));
                    assert(file_refusal(root_real@, required@[i as int]@, probes@[i as int], e));
                }
                return Err(e);
            },
        }
        if !p.is_file {
            proof {
                reveal_strlit("Zorunlu oyun dosyası eksik: ");
            }
            let e = LoaderError::Manifest(join_str("Zorunlu oyun dosyası eksik: ", required[i].as_str()));
            proof {
                assert(resolves(root_real@, required@[i as int]@, probes@[i as int]));
                assert(file_refusal(root_real@, required@[i as int]@, probes@[i as int], e));
            }
            return Err(e);
        }
        proof {
            assert(resolves(root_real@, required@[i as int]@, probes@[i as int]));
        }
        i = i + 1;
    }
    Ok(())
}

/// `s` with every `\\` (two backslashes, left to right) written as one.
pub open spec fn single_backslashes(s: Seq<char>) -> Seq<char>
    decreases s.len(),
{
    if s.len() >= 2 && s[0] == '\\' && s[1] == '\\' {
        seq!['\\'] + single_backslashes(s.skip(2))
    } else if s.len() == 0 {
        s
    } else {
        seq![s[0]] + single_backslashes(s.drop_first())
    }
}

/// A library folder named in `libraryfolders.vdf`, whose backslashes come
/// doubled.
pub fn library_path(value: &str) -> (r: String)
    ensures
        r@ == single_backslashes(value@),
{
    let v = chars_of(value);
    let mut out: Vec<char> = Vec::new();
    let mut i: usize = 0;
    assert(v@.skip(0) =~= v@);
    while i < v.len()
        invariant
            i <= v@.len(),
            v@ == value@,
            out@ + single_backslashes(v@.skip(i as int)) == single_backslashes(value@),
        decreases v@.len() - i,
    {
        let ghost rest = v@.skip(i as int);
        if i + 1 < v.len() && v[i] == '\\' && v[i + 1] == '\\' {
            proof {
                assert(rest.skip(2) =~= v@.skip(i + 2));
                assert(out@ + (seq!['\\'] + single_backslashes(rest.skip(2))) =~= out@.push('\\')
                    + single_backslashes(v@.skip(i + 2)));
            }
            out.push('\\');
            i = i + 2;
        } else {
            proof {
                assert(rest.drop_first() =~= v@.skip(i + 1));
                assert(out@ + (seq![rest[0]] + single_backslashes(rest.drop_first())) =~= out@.push(
                    v@[i as int],
                ) + single_backslashes(v@.skip(i + 1)));
            }
            out.push(v[i]);
            i = i + 1;
        }
    }
    proof {
        assert(out@ + single_backslashes(v@.skip(i as int)) =~= out@);
    }
    string_from(out.as_slice())
}

/// The game folder an app manifest names in a library: the first
/// `installdir` value, under `steamapps/common`.
pub open spec fn steam_root(library: Seq<char>, acf: Seq<char>) -> Option<Seq<char>> {
    let names = quoted(acf, "installdir"@);
    if names.len() > 0 {
        Some(crate::emulator::join_path(crate::emulator::join_path(library, "steamapps/common"@), names[0]))
    } else {
        None
    }
}

/// See `steam_root`.
pub fn steam_game_root(library: &str, acf: &str) -> (r: Option<String>)
    ensures
        crate::emulator::opt_view(r) == steam_root(library@, acf@),
{
    let names = quoted_values(acf, "installdir");
    if names.len() == 0 {
        return None;
    }
    proof {
        assert(crate::text::string_views(names@)[0] == names@[0]@);
    }
    let base = crate::emulator::join_path_exec(library, "steamapps/common");
    Some(crate::emulator::join_path_exec(base.as_str(), names[0].as_str()))
}

/// The app manifest file of a Steam app: `appmanifest_<id>.acf`.
pub fn app_manifest_name(app_id: &str) -> (r: String)
    ensures
        r@ == "appmanifest_"@ + app_id@ + ".acf"@,
{
    let a = crate::text::join_str("appmanifest_", app_id);
    crate::text::join_str(a.as_str(), ".acf")
}


/// The Steam game folder chosen among the candidates (one per library, in
/// the order the libraries are searched; `valid[i]` says whether candidate
/// `i` exists and passes `validate_root`): the first valid one.
pub fn choose_steam_root(valid: &Vec<bool>) -> (r: Option<usize>)
    ensures
        match r {
            Some(i) => i < valid@.len() && valid@[i as int] && forall|j: int| 0 <= j < i ==> !valid@[j],
            None => forall|j: int| 0 <= j < valid@.len() ==> !valid@[j],
        },
{
    let mut i: usize = 0;
    while i < valid.len()
        invariant
            i <= valid@.len(),
            forall|j: int| 0 <= j < i ==> !valid@[j],
        decreases valid@.len() - i,
    {
        if valid[i] {
            return Some(i);
        }
        i = i + 1;
    }
    None
}

} // verus!
