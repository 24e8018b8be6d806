//! Install rules: manifest validation, the loader version gate, dry runs,
//! journal verification and rollback plans.
use crate::error::LoaderError;
use crate::models::{Action, ActionType, ChangeRecord, DryRun, Installation, Manifest, Verification};
use crate::patch::journal::{checked_count, conflict_paths, verify_records};
use crate::security::path::{components, components_of, forward_slashes, path_within, unify, within};
use crate::security::path::{relative_ok, validate_relative};
use crate::text::{
    blank, chars_of, eq_ignore_case, is_digit, is_hex_digit, is_white, split_char, split_ranges,
    str_eq, str_eq_ignore_case, string_views, trim, trim_bounds, join_str, decimal, dec_chars, trimmed,
};
use vstd::prelude::*;

verus! {

/// Index of the first `-` or `+` in `s` (its length when there is none).
pub open spec fn tag_index(s: Seq<char>) -> int
    decreases s.len(),
{
    if s.len() == 0 {
        0
    } else if s[0] == '-' || s[0] == '+' {
        0
    } else {
        1 + tag_index(s.drop_first())
    }
}

/// The decimal number a string of digits denotes.
pub open spec fn dec_value(s: Seq<char>) -> int
    decreases s.len(),
{
    if s.len() == 0 {
        0
    } else {
        dec_value(s.drop_last()) * 10 + (s.last() as int - 48)
    }
}

/// A string of decimal digits only.
pub open spec fn all_digits(s: Seq<char>) -> bool {
    forall|i: int| 0 <= i < s.len() ==> is_digit(#[trigger] s[i])
}

/// A version component: its trimmed text read as a `u64`, 0 when that text is
/// not a `u64`.
pub open spec fn piece_value(p: Seq<char>) -> int {
    let t = trim(p);
    if t.len() > 0 && all_digits(t) && dec_value(t) <= u64::MAX {
        dec_value(t)
    } else {
        0
    }
}

/// The numeric components of a version string: trimmed, cut at the first `-`
/// or `+` (pre-release and build data are ignored), split at `.`.
pub open spec fn version_parts(s: Seq<char>) -> Seq<int> {
    let t = trim(s);
    split_char(t.take(tag_index(t)), '.').map_values(|p: Seq<char>| piece_value(p))
}

/// Component `i` of a version, 0 past its end.
pub open spec fn part_at(v: Seq<int>, i: int) -> int {
    if 0 <= i < v.len() {
        v[i]
    } else {
        0
    }
}

/// Versions agree on every component before `i`.
pub open spec fn same_before(a: Seq<int>, b: Seq<int>, i: int) -> bool {
    forall|j: int| 0 <= j < i ==> #[trigger] part_at(a, j) == part_at(b, j)
}

/// `a` is at least `b`: equal on every component (missing ones count as 0),
/// or greater on the first component where they differ.
pub open spec fn at_least(a: Seq<int>, b: Seq<int>) -> bool {
    ||| forall|j: int| 0 <= j ==> #[trigger] part_at(a, j) == part_at(b, j)
    ||| exists|i: int| 0 <= i && same_before(a, b, i) && #[trigger] part_at(a, i) > part_at(b, i)
}

proof fn lemma_dec_take_le(s: Seq<char>, k: int)
    requires
        0 <= k <= s.len(),
        all_digits(s),
    ensures
        dec_value(s.take(k)) <= dec_value(s),
        0 <= dec_value(s.take(k)),
    decreases s.len() - k,
{
    if k < s.len() {
        lemma_dec_take_le(s, k + 1);
        assert(s.take(k + 1).drop_last() =~= s.take(k));
        assert(is_digit(s[k]));
    } else {
        assert(s.take(k) =~= s);
        lemma_dec_nonneg(s);
    }
}

proof fn lemma_dec_nonneg(s: Seq<char>)
    requires
        all_digits(s),
    ensures
        0 <= dec_value(s),
    decreases s.len(),
{
    if s.len() > 0 {
        assert(is_digit(s.last()));
        lemma_dec_nonneg(s.drop_last());
    }
}

/// The value of the version component `v[lo..hi]` (see `piece_value`).
pub fn piece(v: &Vec<char>, lo: usize, hi: usize) -> (r: u64)
    requires
        lo <= hi <= v@.len(),
    ensures
        r == piece_value(v@.subrange(lo as int, hi as int)),
{
    let (a, b) = trim_bounds(v, lo, hi);
    let ghost t = v@.subrange(a as int, b as int);
    if a == b {
        return 0;
    }
    let mut acc: u64 = 0;
    let mut i = a;
    while i < b
        invariant
            a <= i <= b <= v@.len(),
            a < b,
            t == v@.subrange(a as int, b as int),
            t == trim(v@.subrange(lo as int, hi as int)),
            forall|j: int| a <= j < i ==> is_digit(#[trigger] v@[j]),
            acc == dec_value(t.take(i - a)),
        decreases b - i,
    {
        let c = v[i];
        if !('0' <= c && c <= '9') {
            proof {
                assert(!is_digit(t[i - a]));
                assert(!all_digits(t));
            }
            return 0;
        }
        proof {
            assert(t.take(i - a + 1).drop_last() =~= t.take(i - a));
            assert(t.take(i - a + 1).last() == c);
        }
        let d = (c as u32 - 48) as u64;
        if acc > (u64::MAX - d) / 10 {
            proof {
                let q = t.take(i - a + 1);
                assert(q.drop_last() =~= t.take(i - a));
                assert(q.last() == c);
                assert(dec_value(q) == acc * 10 + d);
                assert(acc * 10 + d > u64::MAX) by (nonlinear_arith)
                    requires
                        acc > (u64::MAX - d) / 10,
                        d <= 9,
                ;
                if all_digits(t) {
                    lemma_dec_take_le(t, i - a + 1);
                }
            }
            return 0;
        }
        acc = acc * 10 + d;
        i = i + 1;
    }
    proof {
        assert(t.take(b - a) =~= t);
    }
    acc
}

/// The numeric components of a version string (see `version_parts`).
pub fn parts(value: &str) -> (r: Vec<u64>)
    ensures
        r@.len() == version_parts(value@).len(),
        forall|i: int| 0 <= i < r@.len() ==> r@[i] == #[trigger] version_parts(value@)[i],
{
    let v = chars_of(value);
    proof {
        assert(v@.subrange(0, v@.len() as int) =~= v@);
    }
    let (a, b) = trim_bounds(&v, 0, v.len());
    let ghost t = v@.subrange(a as int, b as int);
    proof {
        assert(t.skip(0) =~= t);
    }
    let mut e = a;
    while e < b && v[e] != '-' && v[e] != '+'
        invariant
            a <= e <= b <= v@.len(),
            t == v@.subrange(a as int, b as int),
            tag_index(t) == (e - a) + tag_index(t.skip(e - a)),
        decreases b - e,
    {
        proof {
            assert(t.skip(e - a).drop_first() =~= t.skip(e - a + 1));
        }
        e = e + 1;
    }
    proof {
        if e < b {
            assert(t.skip(e - a)[0] == v@[e as int]);
        }
        assert(tag_index(t.skip(e - a)) == 0);
        assert(t.take(tag_index(t)) =~= v@.subrange(a as int, e as int));
    }
    let ranges = split_ranges(&v, a, e, '.');
    let ghost pieces = split_char(v@.subrange(a as int, e as int), '.');
    let mut out: Vec<u64> = Vec::new();
    let mut k: usize = 0;
    while k < ranges.len()
        invariant
            k <= ranges@.len(),
            ranges@.len() == pieces.len(),
            a <= e <= v@.len(),
            forall|m: int|
                0 <= m < ranges@.len() ==> a <= (#[trigger] ranges@[m]).0 <= ranges@[m].1 <= e
                    && v@.subrange(ranges@[m].0 as int, ranges@[m].1 as int) == pieces[m],
            out@.len() == k,
            forall|m: int| 0 <= m < k ==> out@[m] == piece_value(#[trigger] pieces[m]),
        decreases ranges@.len() - k,
    {
        let (x, y) = ranges[k];
        out.push(piece(&v, x, y));
        k = k + 1;
    }
    out
}

/// "1.2.0" >= "1.1.3": whether `current` is at least `minimum` (see
/// `at_least` and `version_parts`).
pub fn version_at_least(current: &str, minimum: &str) -> (r: bool)
    ensures
        r == at_least(version_parts(current@), version_parts(minimum@)),
{
    let a = parts(current);
    let b = parts(minimum);
    let ghost va = version_parts(current@);
    let ghost vb = version_parts(minimum@);
    let n = if a.len() > b.len() {
        a.len()
    } else {
        b.len()
    };
    let mut i: usize = 0;
    while i < n
        invariant
            n >= a@.len(),
            n >= b@.len(),
            va == version_parts(current@),
            vb == version_parts(minimum@),
            a@.len() == va.len(),
            b@.len() == vb.len(),
            forall|m: int| 0 <= m < a@.len() ==> a@[m] == #[trigger] va[m],
            forall|m: int| 0 <= m < b@.len() ==> b@[m] == #[trigger] vb[m],
            i <= n,
            same_before(va, vb, i as int),
        decreases n - i,
    {
        let x = if i < a.len() {
            a[i]
        } else {
            0
        };
        let y = if i < b.len() {
            b[i]
        } else {
            0
        };
        proof {
            assert(x == part_at(va, i as int));
            assert(y == part_at(vb, i as int));
        }
        if x != y {
            proof {
                let ii = i as int;
                assert(same_before(va, vb, ii));
                if x > y {
                    assert(part_at(va, ii) > part_at(vb, ii));
                    assert(at_least(va, vb));
                } else {
                    assert(part_at(va, ii) != part_at(vb, ii));
                    assert forall|k: int| 0 <= k && same_before(va, vb, k) implies !(#[trigger] part_at(va, k) > part_at(vb, k)) by {
                        if k > ii {
                            assert(part_at(va, ii) == part_at(vb, ii));
                        }
                    }
                    assert(!at_least(va, vb));
                }
            }
            return x > y;
        }
        i = i + 1;
    }
    proof {
        assert forall|j: int| 0 <= j implies #[trigger] part_at(va, j) == part_at(vb, j) by {
            if j >= n {
            }
        }
    }
    true
}

/// Law: every version is at least itself.
pub proof fn law_version_reflexive(v: Seq<char>)
    ensures
        at_least(version_parts(v), version_parts(v)),
{
}

/// Law: of two versions, one is at least the other.
pub proof fn law_version_total(a: Seq<char>, b: Seq<char>)
    ensures
        at_least(version_parts(a), version_parts(b)) || at_least(version_parts(b), version_parts(a)),
{
    let x = version_parts(a);
    let y = version_parts(b);
    if !(forall|j: int| 0 <= j ==> #[trigger] part_at(x, j) == part_at(y, j)) {
        let d = choose|j: int| 0 <= j && #[trigger] part_at(x, j) != part_at(y, j);
        let i = first_difference(x, y, d);
        if part_at(x, i) > part_at(y, i) {
            assert(same_before(x, y, i));
        } else {
            assert(same_before(y, x, i));
        }
    }
}

/// The first index where two versions differ, given one where they do.
proof fn first_difference(x: Seq<int>, y: Seq<int>, d: int) -> (i: int)
    requires
        0 <= d,
        part_at(x, d) != part_at(y, d),
    ensures
        0 <= i <= d,
        part_at(x, i) != part_at(y, i),
        same_before(x, y, i),
    decreases d,
{
    if d == 0 || same_before(x, y, d) {
        d
    } else {
        let j = choose|j: int| 0 <= j < d && #[trigger] part_at(x, j) != part_at(y, j);
        first_difference(x, y, j)
    }
}

/// Law: the order is transitive.
pub proof fn law_version_transitive(a: Seq<char>, b: Seq<char>, c: Seq<char>)
    requires
        at_least(version_parts(a), version_parts(b)),
        at_least(version_parts(b), version_parts(c)),
    ensures
        at_least(version_parts(a), version_parts(c)),
{
    let x = version_parts(a);
    let y = version_parts(b);
    let z = version_parts(c);
    let xy_eq = forall|j: int| 0 <= j ==> #[trigger] part_at(x, j) == part_at(y, j);
    let yz_eq = forall|j: int| 0 <= j ==> #[trigger] part_at(y, j) == part_at(z, j);
    if xy_eq && yz_eq {
        assert forall|j: int| 0 <= j implies #[trigger] part_at(x, j) == part_at(z, j) by {
            assert(part_at(x, j) == part_at(y, j));
        }
    } else if xy_eq {
        let i = choose|i: int| 0 <= i && same_before(y, z, i) && #[trigger] part_at(y, i) > part_at(z, i);
        assert(part_at(x, i) == part_at(y, i));
        assert forall|j: int| 0 <= j < i implies #[trigger] part_at(x, j) == part_at(z, j) by {
            assert(part_at(x, j) == part_at(y, j));
        }
    } else if yz_eq {
        let i = choose|i: int| 0 <= i && same_before(x, y, i) && #[trigger] part_at(x, i) > part_at(y, i);
        assert(part_at(y, i) == part_at(z, i));
        assert forall|j: int| 0 <= j < i implies #[trigger] part_at(x, j) == part_at(z, j) by {
            assert(part_at(y, j) == part_at(z, j));
        }
    } else {
        let i = choose|i: int| 0 <= i && same_before(x, y, i) && #[trigger] part_at(x, i) > part_at(y, i);
        let k = choose|k: int| 0 <= k && same_before(y, z, k) && #[trigger] part_at(y, k) > part_at(z, k);
        let m = if i < k { i } else { k };
        assert forall|j: int| 0 <= j < m implies #[trigger] part_at(x, j) == part_at(z, j) by {
            assert(part_at(x, j) == part_at(y, j));
            assert(part_at(y, j) == part_at(z, j));
        }
        if i < k {
            assert(part_at(y, i) == part_at(z, i));
        } else if k < i {
            assert(part_at(x, k) == part_at(y, k));
        }
        assert(part_at(x, m) > part_at(z, m));
    }
}

/// The message of the loader version gate: the (trimmed) minimum and the
/// running loader's version.
pub open spec fn version_gate_text(minimum: Seq<char>, loader: Seq<char>) -> Seq<char> {
    "Bu yama en az "@ + trim(minimum) + " sürümünde loader gerektiriyor (kurulu: "@ + loader
        + "). Önce loader'ı güncelleyin."@
}

/// The loader version gate: a patch whose (trimmed) minimum loader version is
/// not empty needs a loader at least that version (else `Manifest`).
pub fn ensure_loader_version(manifest: &Manifest, loader_version: &str) -> (r: Result<(), LoaderError>)
    ensures
        r is Ok <==> trim(manifest.patch.minimum_loader_version@).len() == 0 || at_least(
            version_parts(loader_version@),
            version_parts(manifest.patch.minimum_loader_version@),
        ),
        r matches Err(e) ==> (e matches LoaderError::Manifest(m) && m@ == version_gate_text(
            manifest.patch.minimum_loader_version@,
            loader_version@,
        )),
{
    let minimum = manifest.patch.minimum_loader_version.as_str();
    if blank(minimum) || version_at_least(loader_version, minimum) {
        return Ok(());
    }
    proof {
        reveal_strlit("Bu yama en az ");
        reveal_strlit(" sürümünde loader gerektiriyor (kurulu: ");
        reveal_strlit("). Önce loader'ı güncelleyin.");
    }
    let t = trimmed(minimum);
    let a = join_str("Bu yama en az ", t.as_str());
    let b = join_str(a.as_str(), " sürümünde loader gerektiriyor (kurulu: ");
    let c = join_str(b.as_str(), loader_version);
    Err(LoaderError::Manifest(join_str(c.as_str(), "). Önce loader'ı güncelleyin.")))
}

/// What `uuid::Uuid::parse_str` accepts: a function of the text alone.
pub uninterp spec fn uuid_parses(s: Seq<char>) -> bool;

/// Whether `uuid::Uuid::parse_str` accepts `s`.
#[verifier::external_body]
fn uuid_valid(s: &str) -> (r: bool)
    ensures
        r == uuid_parses(s@),
{
    uuid::Uuid::parse_str(s).is_ok()
}

/// The PlayStation titles whose game image lives in a folder the loader owns.
pub open spec fn managed_slug(s: Seq<char>) -> bool {
    s == "silent-hill-1"@ || s == "resident-evil-code-veronica-2000"@
}

/// Whether the manifest is for one of those PlayStation titles.
pub fn is_managed_ps_game(manifest: &Manifest) -> (r: bool)
    ensures
        r == managed_slug(manifest.game.slug@),
{
    let slug = manifest.game.slug.as_str();
    str_eq(slug, "silent-hill-1") || str_eq(slug, "resident-evil-code-veronica-2000")
}

/// How a manifest is judged: accepted, refused as a manifest (the message is
/// carried), or refused for an unsafe path (the path is carried).
pub enum ManifestVerdict {
    Accepted,
    Invalid(Seq<char>),
    Unsafe(Seq<char>),
}

/// A detection path that must be checked and is not a safe relative path.
/// For the managed PlayStation titles blank paths are skipped.
pub open spec fn bad_path(managed: bool, p: Seq<char>) -> bool {
    (!managed || trim(p).len() > 0) && !relative_ok(p)
}

/// `i` is the first index of `ps` that holds a bad path.
pub open spec fn first_bad(managed: bool, ps: Seq<Seq<char>>, i: int) -> bool {
    &&& 0 <= i < ps.len()
    &&& bad_path(managed, ps[i])
    &&& forall|j: int| 0 <= j < i ==> !bad_path(managed, #[trigger] ps[j])
}

/// The paths of the detection block in the order they are checked: the
/// executable, the required files, the optional files.
pub open spec fn detection_paths(m: Manifest) -> Seq<Seq<char>> {
    seq![m.detection.executable@] + string_views(m.detection.required_files@) + string_views(
        m.detection.optional_files@,
    )
}

/// The first bad detection path, if there is one.
pub open spec fn detection_verdict(m: Manifest) -> ManifestVerdict {
    let managed = managed_slug(m.game.slug@);
    let ps = detection_paths(m);
    if exists|i: int| first_bad(managed, ps, i) {
        ManifestVerdict::Unsafe(ps[choose|i: int| first_bad(managed, ps, i)])
    } else {
        ManifestVerdict::Accepted
    }
}

/// Actions that read a file or folder of the archive (or of the game) name it
/// in `source`.
pub open spec fn needs_source(k: ActionType) -> bool {
    ||| k == ActionType::CopyFile
    ||| k == ActionType::CopyDirectory
    ||| k == ActionType::ReplaceFile
    ||| k == ActionType::MoveFile
    ||| k == ActionType::RenameFile
}

/// The judgement of one action: its id must be a UUID, its destination and
/// (where it needs one) its source safe relative paths.
pub open spec fn action_verdict(a: Action) -> ManifestVerdict {
    if !uuid_parses(a.id@) {
        ManifestVerdict::Invalid("Action UUID geçersiz: "@ + a.id@)
    } else if !relative_ok(a.destination@) {
        ManifestVerdict::Unsafe(a.destination@)
    } else if needs_source(a.kind) {
        match a.source {
            None => ManifestVerdict::Invalid("Action source eksik: "@ + a.id@),
            Some(s) => if relative_ok(s@) {
                ManifestVerdict::Accepted
            } else {
                ManifestVerdict::Unsafe(s@)
            },
        }
    } else {
        ManifestVerdict::Accepted
    }
}

/// `i` is the first action that is not accepted.
pub open spec fn first_refused(acts: Seq<Action>, i: int) -> bool {
    &&& 0 <= i < acts.len()
    &&& !(action_verdict(acts[i]) is Accepted)
    &&& forall|j: int| 0 <= j < i ==> #[trigger] action_verdict(acts[j]) is Accepted
}

/// The judgement of the first refused action, if there is one.
pub open spec fn actions_verdict(acts: Seq<Action>) -> ManifestVerdict {
    if exists|i: int| first_refused(acts, i) {
        action_verdict(acts[choose|i: int| first_refused(acts, i)])
    } else {
        ManifestVerdict::Accepted
    }
}

/// The archive is named by a non-zero size and a 64-digit hex SHA-256.
pub open spec fn archive_ok(m: Manifest) -> bool {
    &&& m.archive.size != 0
    &&& m.archive.sha256@.len() == 64
    &&& forall|i: int| 0 <= i < 64 ==> is_hex_digit(#[trigger] m.archive.sha256@[i])
}

/// The judgement of a whole manifest, in the order of its checks.
pub open spec fn manifest_verdict(m: Manifest) -> ManifestVerdict {
    if m.schema_version != 1 {
        ManifestVerdict::Invalid("Desteklenmeyen schema version: "@ + dec_chars(m.schema_version as nat))
    } else if m.game.id == 0 || m.patch.id == 0 || trim(m.patch.version@).len() == 0 {
        ManifestVerdict::Invalid("Game/patch kimliği eksik"@)
    } else if m.install_actions@.len() == 0 {
        ManifestVerdict::Invalid("Install action listesi boş"@)
    } else if !archive_ok(m) {
        ManifestVerdict::Invalid("Archive bütünlük bilgisi geçersiz"@)
    } else if !m.backup.automatic || m.integrity.conflict_policy@ != "abort"@ {
        ManifestVerdict::Invalid("Güvensiz backup/conflict politikası"@)
    } else if !(detection_verdict(m) is Accepted) {
        detection_verdict(m)
    } else {
        actions_verdict(m.install_actions@)
    }
}

/// Whether a result fits a verdict. Accepted: `Ok`. Invalid: a `Manifest`
/// error with the verdict's message. Unsafe: an `UnsafePath` error that
/// carries the path.
pub open spec fn fits_verdict(v: ManifestVerdict, r: Result<(), LoaderError>) -> bool {
    match v {
        ManifestVerdict::Accepted => r is Ok,
        ManifestVerdict::Invalid(msg) => r matches Err(LoaderError::Manifest(m)) && m@ == msg,
        ManifestVerdict::Unsafe(p) => r matches Err(LoaderError::UnsafePath(q)) && q@ == p,
    }
}

proof fn lemma_first_bad_unique(managed: bool, ps: Seq<Seq<char>>, i: int, j: int)
    requires
        first_bad(managed, ps, i),
        first_bad(managed, ps, j),
    ensures
        i == j,
{
    if i < j {
        assert(!bad_path(managed, ps[i]));
    } else if j < i {
        assert(!bad_path(managed, ps[j]));
    }
}

proof fn lemma_first_refused_unique(acts: Seq<Action>, i: int, j: int)
    requires
        first_refused(acts, i),
        first_refused(acts, j),
    ensures
        i == j,
{
    if i < j {
        assert(action_verdict(acts[i]) is Accepted);
    } else if j < i {
        assert(action_verdict(acts[j]) is Accepted);
    }
}

/// Checks one detection path (see `bad_path`).
fn check_detection_path(managed: bool, p: &String) -> (r: Result<(), LoaderError>)
    ensures
        r is Ok <==> !bad_path(managed, p@),
        r matches Err(e) ==> e matches LoaderError::UnsafePath(q) && q@ == p@,
{
    if managed && blank(p.as_str()) {
        return Ok(());
    }
    match validate_relative(p.as_str()) {
        Ok(_) => Ok(()),
        Err(e) => Err(e),
    }
}

/// Checks the detection paths in order and reports the first bad one.
fn check_detection(m: &Manifest, managed: bool) -> (r: Result<(), LoaderError>)
    requires
        managed == managed_slug(m.game.slug@),
    ensures
        fits_verdict(detection_verdict(*m), r),
{
    let ghost ps = detection_paths(*m);
    let ghost req = string_views(m.detection.required_files@);
    let ghost opt = string_views(m.detection.optional_files@);
    let first = check_detection_path(managed, &m.detection.executable);
    if first.is_err() {
        proof {
            assert(first_bad(managed, ps, 0));
            lemma_unique_detection(managed, ps, 0);
        }
        return first;
    }
    let mut i: usize = 0;
    while i < m.detection.required_files.len()
        invariant
            ps == detection_paths(*m),
            ps == seq![m.detection.executable@] + req + opt,
            req == string_views(m.detection.required_files@),
            opt == string_views(m.detection.optional_files@),
            managed == managed_slug(m.game.slug@),
            i <= req.len(),
            forall|j: int| 0 <= j < 1 + i ==> !bad_path(managed, #[trigger] ps[j]),
        decreases req.len() - i,
    {
        let r = check_detection_path(managed, &m.detection.required_files[i]);
        proof {
            assert(ps[1 + i] == m.detection.required_files@[i as int]@);
        }
        if r.is_err() {
            proof {
                assert(first_bad(managed, ps, 1 + i));
                lemma_unique_detection(managed, ps, 1 + i);
            }
            return r;
        }
        i = i + 1;
    }
    let mut k: usize = 0;
    while k < m.detection.optional_files.len()
        invariant
            ps == detection_paths(*m),
            ps == seq![m.detection.executable@] + req + opt,
            req == string_views(m.detection.required_files@),
            opt == string_views(m.detection.optional_files@),
            managed == managed_slug(m.game.slug@),
            k <= opt.len(),
            forall|j: int| 0 <= j < 1 + req.len() + k ==> !bad_path(managed, #[trigger] ps[j]),
        decreases opt.len() - k,
    {
        let r = check_detection_path(managed, &m.detection.optional_files[k]);
        proof {
            assert(ps[1 + req.len() + k] == m.detection.optional_files@[k as int]@);
        }
        if r.is_err() {
            proof {
                assert(first_bad(managed, ps, 1 + req.len() + k));
                lemma_unique_detection(managed, ps, 1 + req.len() + k);
            }
            return r;
        }
        k = k + 1;
    }
    proof {
        assert forall|j: int| !first_bad(managed, ps, j) by {
            if 0 <= j < ps.len() {
                assert(!bad_path(managed, ps[j]));
            }
        }
    }
    Ok(())
}

proof fn lemma_unique_detection(managed: bool, ps: Seq<Seq<char>>, i: int)
    requires
        first_bad(managed, ps, i),
    ensures
        (choose|j: int| first_bad(managed, ps, j)) == i,
{
    let c = choose|j: int| first_bad(managed, ps, j);
    lemma_first_bad_unique(managed, ps, i, c);
}

/// Checks one action (see `action_verdict`).
fn check_action(a: &Action) -> (r: Result<(), LoaderError>)
    ensures
        fits_verdict(action_verdict(*a), r),
{
    proof {
        reveal_strlit("Action UUID geçersiz: ");
        reveal_strlit("Action source eksik: ");
    }
    if !uuid_valid(a.id.as_str()) {
        return Err(LoaderError::Manifest(join_str("Action UUID geçersiz: ", a.id.as_str())));
    }
    match validate_relative(a.destination.as_str()) {
        Ok(_) => {},
        Err(e) => {
            return Err(e);
        },
    }
    let needs = match a.kind {
        ActionType::CopyFile | ActionType::CopyDirectory | ActionType::ReplaceFile
        | ActionType::MoveFile | ActionType::RenameFile => true,
        _ => false,
    };
    if needs {
        match &a.source {
            None => {
                return Err(LoaderError::Manifest(join_str("Action source eksik: ", a.id.as_str())));
            },
            Some(s) => match validate_relative(s.as_str()) {
                Ok(_) => {},
                Err(e) => {
                    return Err(e);
                },
            },
        }
    }
    Ok(())
}

/// Checks the actions in order and reports the first refused one.
fn check_actions(acts: &Vec<Action>) -> (r: Result<(), LoaderError>)
    ensures
        fits_verdict(actions_verdict(acts@), r),
{
    let mut i: usize = 0;
    while i < acts.len()
        invariant
            i <= acts@.len(),
            forall|j: int| 0 <= j < i ==> #[trigger] action_verdict(acts@[j]) is Accepted,
        decreases acts@.len() - i,
    {
        let r = check_action(&acts[i]);
        if r.is_err() {
            proof {
                assert(first_refused(acts@, i as int));
                let c = choose|j: int| first_refused(acts@, j);
                lemma_first_refused_unique(acts@, i as int, c);
            }
            return r;
        }
        i = i + 1;
    }
    proof {
        assert forall|j: int| !first_refused(acts@, j) by {
            if 0 <= j < acts@.len() {
                assert(action_verdict(acts@[j]) is Accepted);
            }
        }
    }
    Ok(())
}

/// Whether every character of `s` is an ASCII hex digit and there are `n`.
fn hex_of_len(s: &str, n: usize) -> (r: bool)
    ensures
        r == (s@.len() == n && forall|i: int| 0 <= i < n ==> is_hex_digit(#[trigger] s@[i])),
{
    let v = chars_of(s);
    if v.len() != n {
        return false;
    }
    let mut i: usize = 0;
    while i < v.len()
        invariant
            i <= v@.len(),
            v@ == s@,
            v@.len() == n,
            forall|j: int| 0 <= j < i ==> is_hex_digit(#[trigger] v@[j]),
        decreases v@.len() - i,
    {
        let c = v[i];
        if !(('0' <= c && c <= '9') || ('a' <= c && c <= 'f') || ('A' <= c && c <= 'F')) {
            assert(!is_hex_digit(v@[i as int]));
            return false;
        }
        i = i + 1;
    }
    true
}

/// Validates a manifest before anything is touched: schema, ids, archive
/// integrity data, backup and conflict policy, detection paths, then each
/// action's id, destination and source, in that order.
pub fn validate_manifest(manifest: &Manifest) -> (r: Result<(), LoaderError>)
    ensures
        fits_verdict(manifest_verdict(*manifest), r),
{
    if manifest.schema_version != 1 {
        proof {
            reveal_strlit("Desteklenmeyen schema version: ");
        }
        let v = decimal(manifest.schema_version as u64);
        return Err(LoaderError::Manifest(join_str("Desteklenmeyen schema version: ", v.as_str())));
    }
    if manifest.game.id == 0 || manifest.patch.id == 0 || blank(manifest.patch.version.as_str()) {
        return Err(LoaderError::Manifest("Game/patch kimliği eksik".to_owned()));
    }
    if manifest.install_actions.len() == 0 {
        return Err(LoaderError::Manifest("Install action listesi boş".to_owned()));
    }
    if manifest.archive.size == 0 || !hex_of_len(manifest.archive.sha256.as_str(), 64) {
        return Err(LoaderError::Manifest("Archive bütünlük bilgisi geçersiz".to_owned()));
    }
    if !manifest.backup.automatic || !str_eq(manifest.integrity.conflict_policy.as_str(), "abort") {
        return Err(LoaderError::Manifest("Güvensiz backup/conflict politikası".to_owned()));
    }
    let managed = is_managed_ps_game(manifest);
    let d = check_detection(manifest, managed);
    if d.is_err() {
        return d;
    }
    check_actions(&manifest.install_actions)
}

/// What the loader found at an action's destination before an install: whether
/// something is there, and for a folder how many regular files it holds.
pub struct TargetProbe {
    pub exists: bool,
    pub files: u64,
}

/// The counters of a dry run: created, changed, deleted and backed-up files.
pub open spec fn tally_step(t: (int, int, int, int), k: ActionType, p: TargetProbe) -> (
    int,
    int,
    int,
    int,
) {
    let (created, changed, deleted, backup) = t;
    match k {
        ActionType::CopyFile | ActionType::ReplaceFile => if p.exists {
            (created, changed + 1, deleted, backup + 1)
        } else {
            (created + 1, changed, deleted, backup)
        },
        ActionType::CopyDirectory => (created + 1, changed, deleted, backup),
        ActionType::DeleteFile => if p.exists {
            (created, changed, deleted + 1, backup + 1)
        } else {
            t
        },
        // Every file of a deleted folder is deleted and backed up.
        ActionType::DeleteDirectory => if p.exists {
            (created, changed, deleted + p.files, backup + p.files)
        } else {
            t
        },
        ActionType::CreateDirectory => if !p.exists {
            (created + 1, changed, deleted, backup)
        } else {
            t
        },
        ActionType::MoveFile | ActionType::RenameFile => if p.exists {
            (created, changed + 1, deleted, backup + 1)
        } else {
            (created, changed + 1, deleted, backup)
        },
        ActionType::AppendFatDat => t,
    }
}

/// The counters after the first `n` actions.
pub open spec fn tally(acts: Seq<Action>, probes: Seq<TargetProbe>, n: int) -> (
    int,
    int,
    int,
    int,
)
    decreases n,
{
    if n <= 0 {
        (0, 0, 0, 0)
    } else {
        tally_step(tally(acts, probes, n - 1), acts[n - 1].kind, probes[n - 1])
    }
}

/// The files the first `n` actions remove from the game: one for each
/// `DeleteFile` whose target exists, every file of each `DeleteDirectory`
/// whose folder exists, and nothing for any other action.
pub open spec fn removed_files(acts: Seq<Action>, probes: Seq<TargetProbe>, n: int) -> int
    decreases n,
{
    if n <= 0 {
        0
    } else {
        removed_files(acts, probes, n - 1) + if probes[n - 1].exists {
            if acts[n - 1].kind == ActionType::DeleteFile {
                1int
            } else if acts[n - 1].kind == ActionType::DeleteDirectory {
                probes[n - 1].files as int
            } else {
                0int
            }
        } else {
            0int
        }
    }
}

/// Law: a `DeleteFile` whose target does not exist changes no counter of
/// a dry run, whatever came before; and the deleted count of the first `n`
/// actions is exactly the files they remove (`removed_files`).
pub proof fn law_missing_target_deletes_nothing(
    t: (int, int, int, int),
    p: TargetProbe,
    acts: Seq<Action>,
    probes: Seq<TargetProbe>,
    n: int,
)
    requires
        0 <= n <= acts.len(),
        n <= probes.len(),
    ensures
        !p.exists ==> tally_step(t, ActionType::DeleteFile, p) == t,
        p.exists ==> tally_step(t, ActionType::DeleteFile, p) == (t.0, t.1, t.2 + 1, t.3 + 1),
        tally(acts, probes, n).2 == removed_files(acts, probes, n),
    decreases n,
{
    if n > 0 {
        law_missing_target_deletes_nothing(t, p, acts, probes, n - 1);
    }
}

/// Every counter fits in a `u64`.
pub open spec fn tally_fits(t: (int, int, int, int)) -> bool {
    t.0 <= u64::MAX && t.1 <= u64::MAX && t.2 <= u64::MAX && t.3 <= u64::MAX
}

/// `v` clamped to the `u64` range from above.
pub open spec fn sat(v: int) -> int {
    if v > u64::MAX {
        u64::MAX as int
    } else {
        v
    }
}

/// The disk estimate: twice the archive plus 4 MiB per backed-up file,
/// each step saturating.
pub open spec fn disk_estimate(size: int, backup: int) -> int {
    sat(sat(size * 2) + sat(backup * 4194304))
}

/// The number of directory copies among the first `n` actions (each one
/// adds a warning).
pub open spec fn directory_copies(acts: Seq<Action>, n: int) -> int
    decreases n,
{
    if n <= 0 {
        0
    } else {
        directory_copies(acts, n - 1) + if acts[n - 1].kind == ActionType::CopyDirectory {
            1int
        } else {
            0int
        }
    }
}

fn sat_mul(x: u64, y: u64) -> (r: u64)
    ensures
        r == sat(x * y),
{
    match x.checked_mul(y) {
        Some(v) => v,
        None => u64::MAX,
    }
}

/// The warning a directory copy adds.
pub open spec fn directory_warning_text() -> Seq<char> {
    "Directory içindeki kesin dosya sayısı ZIP açıldıktan sonra hesaplanır."@
}

/// See `directory_warning_text`.
pub fn directory_warning() -> (s: String)
    ensures
        s@ == directory_warning_text(),
{
    "Directory içindeki kesin dosya sayısı ZIP açıldıktan sonra hesaplanır.".to_owned()
}

/// Counts what an install would do, from the manifest and what was found at
/// each action's destination (`probes[i]` for action `i`). The manifest is
/// validated first.
pub fn dry_run(manifest: &Manifest, probes: &Vec<TargetProbe>) -> (r: Result<DryRun, LoaderError>)
    requires
        probes@.len() == manifest.install_actions@.len(),
        forall|n: int|
            0 <= n <= probes@.len() ==> tally_fits(
                #[trigger] tally(manifest.install_actions@, probes@, n),
            ),
    ensures
        r is Ok <==> manifest_verdict(*manifest) is Accepted,
        r matches Err(e) ==> fits_verdict(manifest_verdict(*manifest), Err(e)),
        r matches Ok(d) ==> {
            let t = tally(manifest.install_actions@, probes@, probes@.len() as int);
            &&& d.created_files == t.0
            &&& d.changed_files == t.1
            &&& d.deleted_files == t.2
            &&& d.deleted_files == removed_files(manifest.install_actions@, probes@, probes@.len() as int)
            &&& d.backup_files == t.3
            &&& d.download_bytes == manifest.archive.size
            &&& d.estimated_disk_bytes == disk_estimate(manifest.archive.size as int, t.3)
            &&& d.warnings@.len() == directory_copies(
                manifest.install_actions@,
                probes@.len() as int,
            )
            &&& forall|i: int| 0 <= i < d.warnings@.len() ==> #[trigger] d.warnings@[i]@ == directory_warning_text()
        },
{
    let checked = validate_manifest(manifest);
    match checked {
        Ok(()) => {},
        Err(e) => {
            return Err(e);
        },
    }
    let ghost acts = manifest.install_actions@;
    let mut created: u64 = 0;
    let mut changed: u64 = 0;
    let mut deleted: u64 = 0;
    let mut backup: u64 = 0;
    let mut warnings: Vec<String> = Vec::new();
    let mut i: usize = 0;
    while i < probes.len()
        invariant
            acts == manifest.install_actions@,
            probes@.len() == acts.len(),
            i <= probes@.len(),
            forall|n: int| 0 <= n <= probes@.len() ==> tally_fits(#[trigger] tally(acts, probes@, n)),
            tally(acts, probes@, i as int) == (created as int, changed as int, deleted as int, backup as int),
            warnings@.len() == directory_copies(acts, i as int),
            forall|j: int| 0 <= j < warnings@.len() ==> #[trigger] warnings@[j]@ == directory_warning_text(),
        decreases probes@.len() - i,
    {
        let p = &probes[i];
        let kind = manifest.install_actions[i].kind;
        proof {
            assert(tally_fits(tally(acts, probes@, i + 1)));
        }
        match kind {
            ActionType::CopyFile | ActionType::ReplaceFile => {
                if p.exists {
                    changed = changed + 1;
                    backup = backup + 1;
                } else {
                    created = created + 1;
                }
            },
            ActionType::CopyDirectory => {
                created = created + 1;
                warnings.push(directory_warning());
            },
            ActionType::DeleteFile => {
                if p.exists {
                    deleted = deleted + 1;
                    backup = backup + 1;
                }
            },
            ActionType::DeleteDirectory => {
                if p.exists {
                    deleted = deleted + p.files;
                    backup = backup + p.files;
                }
            },
            ActionType::CreateDirectory => {
                if !p.exists {
                    created = created + 1;
                }
            },
            ActionType::MoveFile | ActionType::RenameFile => {
                changed = changed + 1;
                if p.exists {
                    backup = backup + 1;
                }
            },
            ActionType::AppendFatDat => {},
        }
        i = i + 1;
    }
    proof {
        law_missing_target_deletes_nothing(
            (0, 0, 0, 0),
            TargetProbe { exists: false, files: 0 },
            acts,
            probes@,
            probes@.len() as int,
        );
    }
    let doubled = sat_mul(manifest.archive.size, 2);
    let per_backup = sat_mul(backup, 4194304);
    let estimated = doubled.saturating_add(per_backup);
    Ok(
        DryRun {
            created_files: created,
            changed_files: changed,
            deleted_files: deleted,
            backup_files: backup,
            download_bytes: manifest.archive.size,
            estimated_disk_bytes: estimated,
            warnings,
        },
    )
}

/// Checks that come before an install touches anything: the manifest, then
/// the loader version gate.
pub fn preflight(manifest: &Manifest, loader_version: &str) -> (r: Result<(), LoaderError>)
    ensures
        !(manifest_verdict(*manifest) is Accepted) ==> fits_verdict(manifest_verdict(*manifest), r),
        manifest_verdict(*manifest) is Accepted ==> (r is Ok <==> trim(
            manifest.patch.minimum_loader_version@,
        ).len() == 0 || at_least(
            version_parts(loader_version@),
            version_parts(manifest.patch.minimum_loader_version@),
        )),
        manifest_verdict(*manifest) is Accepted && r is Err ==> (r matches Err(LoaderError::Manifest(m))
            && m@ == version_gate_text(manifest.patch.minimum_loader_version@, loader_version@)),
{
    let v = validate_manifest(manifest);
    if v.is_err() {
        return v;
    }
    ensure_loader_version(manifest, loader_version)
}

/// The progress shown after action `index` of `total`: from 60 to 95 %.
pub fn install_percent(index: usize, total: usize) -> (r: u8)
    requires
        index < total,
    ensures
        r == 60 + (index + 1) * 35 / (total as int),
{
    let done = (index as u128) + 1;
    assert(done * 35 <= total * 35) by (nonlinear_arith)
        requires
            done <= total,
    ;
    assert((done * 35) / (total as int) <= 35) by (nonlinear_arith)
        requires
            done <= total,
            total > 0,
    ;
    let q = (done * 35) / (total as u128);
    60 + (q as u8)
}

/// Whether an action's result is checked against its `expected_sha256`:
/// when it names one and the action leaves a file at its destination.
pub open spec fn result_checked(k: ActionType, expected: Option<String>) -> bool {
    expected is Some && !(k == ActionType::DeleteFile || k == ActionType::DeleteDirectory
        || k == ActionType::CreateDirectory)
}

/// The check of an action's result: `observed` is the hash of the
/// destination, `None` where it is no regular file. A mismatch (ignoring
/// ASCII case) is an `Integrity` error naming the destination, after which
/// the install rolls back.
pub fn check_action_result(
    kind: ActionType,
    destination: &str,
    expected: &Option<String>,
    observed: &Option<String>,
) -> (r: Result<(), LoaderError>)
    ensures
        r is Ok <==> !result_checked(kind, *expected) || match (*expected, *observed) {
            (Some(e), Some(o)) => eq_ignore_case(o@, e@),
            _ => false,
        },
        r matches Err(e) ==> (e matches LoaderError::Integrity(m) && m@ == "Action sonucu doğrulanamadı: "@
            + destination@),
{
    proof {
        reveal_strlit("Action sonucu doğrulanamadı: ");
    }
    match expected {
        None => Ok(()),
        Some(e) => {
            match kind {
                ActionType::DeleteFile | ActionType::DeleteDirectory
                | ActionType::CreateDirectory => {
                    return Ok(());
                },
                _ => {},
            }
            let same = match observed {
                Some(o) => str_eq_ignore_case(o.as_str(), e.as_str()),
                None => false,
            };
            if same {
                Ok(())
            } else {
                Err(LoaderError::Integrity(join_str("Action sonucu doğrulanamadı: ", destination)))
            }
        },
    }
}

/// The handlers that carry out install actions.
#[derive(Clone, Copy, Debug, PartialEq, Eq, Structural)]
pub enum Handler {
    Copy,
    Delete,
    Directory,
    Move,
    FatDat,
}

/// The handler that supports an action kind.
pub fn handler_for(kind: ActionType) -> (h: Handler)
    ensures
        h == Handler::Copy <==> (kind == ActionType::CopyFile || kind == ActionType::ReplaceFile
            || kind == ActionType::CopyDirectory),
        h == Handler::Delete <==> (kind == ActionType::DeleteFile || kind
            == ActionType::DeleteDirectory),
        h == Handler::Directory <==> kind == ActionType::CreateDirectory,
        h == Handler::Move <==> (kind == ActionType::MoveFile || kind == ActionType::RenameFile),
        h == Handler::FatDat <==> kind == ActionType::AppendFatDat,
{
    match kind {
        ActionType::CopyFile | ActionType::ReplaceFile | ActionType::CopyDirectory => Handler::Copy,
        ActionType::DeleteFile | ActionType::DeleteDirectory => Handler::Delete,
        ActionType::CreateDirectory => Handler::Directory,
        ActionType::MoveFile | ActionType::RenameFile => Handler::Move,
        ActionType::AppendFatDat => Handler::FatDat,
    }
}

/// The game-relative destination of a file found at `relative` inside a
/// copied folder: the action's destination joined with it, written with `/`.
pub open spec fn nested_destination(destination: Seq<char>, relative: Seq<char>) -> Seq<char> {
    let d = unify(destination);
    if d.len() == 0 || d.last() == '/' {
        d + unify(relative)
    } else {
        d + seq!['/'] + unify(relative)
    }
}

/// See `nested_destination`.
pub fn nested_path(destination: &str, relative: &str) -> (r: String)
    ensures
        r@ == nested_destination(destination@, relative@),
{
    let d = forward_slashes(destination);
    let rel = forward_slashes(relative);
    let dv = chars_of(d.as_str());
    if dv.len() == 0 || dv[dv.len() - 1] == '/' {
        crate::text::join_str(d.as_str(), rel.as_str())
    } else {
        let with_sep = crate::text::join_str(d.as_str(), "/");
        proof {
            reveal_strlit("/");
        }
        crate::text::join_str(with_sep.as_str(), rel.as_str())
    }
}

/// Verifies an installation record against what is on disk now (see
/// `verify_records`).
pub fn verify_installation(installation: &Installation, observed: &Vec<Option<String>>) -> (r:
    Verification)
    requires
        observed@.len() == installation.changes@.len(),
    ensures
        r.checked == checked_count(installation.changes@, installation.changes@.len() as int),
        r.conflicts@.len() == conflict_paths(
            installation.changes@,
            observed@,
            installation.changes@.len() as int,
        ).len(),
        forall|i: int|
            0 <= i < r.conflicts@.len() ==> #[trigger] r.conflicts@[i]@ == conflict_paths(
                installation.changes@,
                observed@,
                installation.changes@.len() as int,
            )[i],
        r.valid == (r.conflicts@.len() == 0),
{
    verify_records(&installation.changes, observed)
}

/// Some running process has the game's process name (ignoring ASCII case).
pub open spec fn name_running(names: Seq<String>, expected: Seq<char>) -> bool {
    exists|i: int| 0 <= i < names.len() && eq_ignore_case(#[trigger] names[i]@, expected)
}

/// Refuses to patch while the game runs: `running` are the names of the
/// running processes. Without a process name in the manifest nothing is
/// checked.
pub fn assert_not_running(process_name: &Option<String>, running: &Vec<String>) -> (r: Result<
    (),
    LoaderError,
>)
    ensures
        r is Ok <==> match *process_name {
            None => true,
            Some(p) => !name_running(running@, p@),
        },
        r matches Err(e) ==> e matches LoaderError::GameRunning(n) && process_name.unwrap()@ == n@,
{
    let expected = match process_name {
        None => {
            return Ok(());
        },
        Some(p) => p,
    };
    let mut i: usize = 0;
    while i < running.len()
        invariant
            i <= running@.len(),
            *process_name == Some(*expected),
            forall|j: int| 0 <= j < i ==> !eq_ignore_case(#[trigger] running@[j]@, expected@),
        decreases running@.len() - i,
    {
        if str_eq_ignore_case(running[i].as_str(), expected.as_str()) {
            return Err(LoaderError::GameRunning(expected.clone()));
        }
        i = i + 1;
    }
    Ok(())
}

/// A mounted disk: where it is mounted and how many bytes are free on it.
pub struct DiskInfo {
    pub mount_point: String,
    pub available: u64,
}

/// Disk `i` holds the folder `root`.
pub open spec fn holds(disks: Seq<DiskInfo>, i: int, root: Seq<char>) -> bool {
    0 <= i < disks.len() && within(root, disks[i].mount_point@)
}

/// Disk `i` is the one whose free space counts for `root`: it holds `root`,
/// no disk that holds it is mounted deeper, and no later one as deep.
pub open spec fn chosen_disk(disks: Seq<DiskInfo>, i: int, root: Seq<char>) -> bool {
    &&& holds(disks, i, root)
    &&& forall|j: int|
        #![trigger disks[j]]
        holds(disks, j, root) ==> components(disks[j].mount_point@).len() <= components(
            disks[i].mount_point@,
        ).len() && (j > i ==> components(disks[j].mount_point@).len() < components(
            disks[i].mount_point@,
        ).len())
}

/// The free space that counts for `root` (a canonical path): that of the
/// deepest mount holding it (the last of equally deep ones), `u64::MAX` where
/// none does.
pub fn available_space(disks: &Vec<DiskInfo>, root: &str) -> (r: u64)
    ensures
        (forall|i: int| !holds(disks@, i, root@)) ==> r == u64::MAX,
        (exists|i: int| holds(disks@, i, root@)) ==> exists|i: int|
            chosen_disk(disks@, i, root@) && r == disks@[i].available,
{
    let mut best: Option<(usize, usize)> = None;
    let mut i: usize = 0;
    while i < disks.len()
        invariant
            i <= disks@.len(),
            match best {
                None => forall|j: int| 0 <= j < i ==> !holds(disks@, j, root@),
                Some((b, depth)) => {
                    &&& b < i
                    &&& holds(disks@, b as int, root@)
                    &&& depth == components(disks@[b as int].mount_point@).len()
                    &&& forall|j: int|
                        #![trigger disks@[j]]
                        0 <= j < i && holds(disks@, j, root@) ==> components(
                            disks@[j].mount_point@,
                        ).len() <= depth && (j > b ==> components(disks@[j].mount_point@).len()
                            < depth)
                },
            },
        decreases disks@.len() - i,
    {
        if path_within(root, disks[i].mount_point.as_str()) {
            let parts = components_of(disks[i].mount_point.as_str());
            let depth = parts.len();
            proof {
                assert(depth == crate::text::views(parts@).len());
            }
            match best {
                None => {
                    best = Some((i, depth));
                },
                Some((_, d)) => {
                    if depth >= d {
                        best = Some((i, depth));
                    }
                },
            }
        }
        i = i + 1;
    }
    match best {
        None => u64::MAX,
        Some((b, _)) => {
            proof {
                assert(chosen_disk(disks@, b as int, root@));
            }
            disks[b].available
        },
    }
}

/// Refuses an install that needs more bytes than are free; the message
/// gives the need in whole MiB.
pub fn ensure_disk_space(available: u64, needed: u64) -> (r: Result<(), LoaderError>)
    ensures
        r is Ok <==> available >= needed,
        r matches Err(e) ==> e matches LoaderError::Other(m) && m@ == "Yetersiz disk alanı. Gerekli: "@
            + dec_chars((needed / 1048576) as nat) + " MB"@,
{
    if available < needed {
        let head = join_str("Yetersiz disk alanı. Gerekli: ", decimal(needed / 1048576).as_str());
        let text = join_str(head.as_str(), " MB");
        proof {
            reveal_strlit("Yetersiz disk alanı. Gerekli: ");
            reveal_strlit(" MB");
        }
        return Err(LoaderError::Other(text));
    }
    Ok(())
}

/// A copy action needs its source (the action's `source`) in the archive: a
/// folder for a folder copy, a regular file otherwise (else a `Manifest`
/// error naming the source).
pub fn check_copy_source(kind: ActionType, source: &str, source_is_dir: bool, source_is_file: bool)
    -> (r: Result<(), LoaderError>)
    ensures
        r is Ok <==> if kind == ActionType::CopyDirectory {
            source_is_dir
        } else {
            source_is_file
        },
        r matches Err(e) ==> e matches LoaderError::Manifest(m) && m@ == (if kind
            == ActionType::CopyDirectory {
            "Archive source directory yok: "@
        } else {
            "Archive source file yok: "@
        }) + source@,
{
    proof {
        reveal_strlit("Archive source directory yok: ");
        reveal_strlit("Archive source file yok: ");
    }
    if kind == ActionType::CopyDirectory {
        if !source_is_dir {
            return Err(LoaderError::Manifest(join_str("Archive source directory yok: ", source)));
        }
    } else if !source_is_file {
        return Err(LoaderError::Manifest(join_str("Archive source file yok: ", source)));
    }
    Ok(())
}

/// A move needs its source (`source`, in the game folder) to be a regular
/// file, else a `Manifest` error naming it.
pub fn check_move_source(source: &str, source_is_file: bool) -> (r: Result<(), LoaderError>)
    ensures
        r is Ok <==> source_is_file,
        r matches Err(e) ==> e matches LoaderError::Manifest(m) && m@ == "Taşınacak dosya yok: "@
            + source@,
{
    if !source_is_file {
        proof {
            reveal_strlit("Taşınacak dosya yok: ");
        }
        return Err(LoaderError::Manifest(join_str("Taşınacak dosya yok: ", source)));
    }
    Ok(())
}

} // verus!
