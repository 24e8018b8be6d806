//! PlayStation titles: platforms, game image files, where an emulator is
//! looked for, and how it is started.
use crate::error::LoaderError;
use crate::download::{
    contains_chars, lower_all, parse_download_url, parts_view, to_lower, url_parts, UrlParts,
};
use vstd::string::StringSliceAdditionalSpecFns;
use crate::security::path::within;
use crate::text::{
    blank, chars_of, dec_chars, decimal, join_str, join_with, joined, str_eq, string_from,
    string_views, trim, trim_bounds,
};
use vstd::prelude::*;

verus! {

/// The PlayStation generations the loader can start.
#[derive(Clone, Copy, Debug, PartialEq, Eq, Structural)]
pub enum PsPlatform {
    Ps1,
    Ps2,
}

/// The platform a (trimmed, ASCII case-folded) name stands for.
pub open spec fn platform_named(v: Seq<char>) -> Option<PsPlatform> {
    let n = lower_all(trim(v));
    if n == "ps1"@ || n == "psx"@ || n == "playstation1"@ {
        Some(PsPlatform::Ps1)
    } else if n == "ps2"@ || n == "playstation2"@ {
        Some(PsPlatform::Ps2)
    } else {
        None
    }
}

fn vec_is(v: &Vec<char>, s: &str) -> (r: bool)
    ensures
        r == (v@ == s@),
{
    let w = chars_of(s);
    let r = crate::text::range_eq(v, 0, v.len(), &w);
    proof {
        assert(v@.subrange(0, v@.len() as int) =~= v@);
    }
    r
}

impl PsPlatform {
    /// See `platform_named`; any other name is refused.
    pub fn parse(value: &str) -> (r: Result<PsPlatform, LoaderError>)
        ensures
            match platform_named(value@) {
                Some(p) => r == Ok::<PsPlatform, LoaderError>(p),
                None => (r matches Err(LoaderError::Other(m)) && m@ == "Desteklenmeyen PlayStation platformu."@),
            },
    {
        let v = chars_of(value);
        proof {
            assert(v@.subrange(0, v@.len() as int) =~= v@);
        }
        let (a, b) = trim_bounds(&v, 0, v.len());
        let t = crate::text::slice_vec(&v, a, b);
        let ts = crate::text::string_from(t.as_slice());
        let n = to_lower(ts.as_str());
        if vec_is(&n, "ps1") || vec_is(&n, "psx") || vec_is(&n, "playstation1") {
            Ok(PsPlatform::Ps1)
        } else if vec_is(&n, "ps2") || vec_is(&n, "playstation2") {
            Ok(PsPlatform::Ps2)
        } else {
            Err(LoaderError::Other("Desteklenmeyen PlayStation platformu.".to_owned()))
        }
    }

    /// The platform's name as shown to the user.
    pub fn label(self) -> (r: &'static str)
        ensures
            r@ == (match self {
                PsPlatform::Ps1 => "PlayStation 1"@,
                PsPlatform::Ps2 => "PlayStation 2"@,
            }),
    {
        match self {
            PsPlatform::Ps1 => "PlayStation 1",
            PsPlatform::Ps2 => "PlayStation 2",
        }
    }

    /// The emulator the platform runs on.
    pub fn emulator_name(self) -> (r: &'static str)
        ensures
            r@ == (match self {
                PsPlatform::Ps1 => "DuckStation"@,
                PsPlatform::Ps2 => "PCSX2"@,
            }),
    {
        match self {
            PsPlatform::Ps1 => "DuckStation",
            PsPlatform::Ps2 => "PCSX2",
        }
    }

    /// The environment variable that can name the emulator's executable.
    pub fn env_variable(self) -> (r: &'static str)
        ensures
            r@ == (match self {
                PsPlatform::Ps1 => "ANIMUS_DUCKSTATION_PATH"@,
                PsPlatform::Ps2 => "ANIMUS_PCSX2_PATH"@,
            }),
    {
        match self {
            PsPlatform::Ps1 => "ANIMUS_DUCKSTATION_PATH",
            PsPlatform::Ps2 => "ANIMUS_PCSX2_PATH",
        }
    }

    /// The file in the loader's settings that remembers the emulator.
    pub fn config_file(self) -> (r: &'static str)
        ensures
            r@ == (match self {
                PsPlatform::Ps1 => "duckstation.path"@,
                PsPlatform::Ps2 => "pcsx2.path"@,
            }),
    {
        match self {
            PsPlatform::Ps1 => "duckstation.path",
            PsPlatform::Ps2 => "pcsx2.path",
        }
    }

    /// The game image extensions the platform accepts.
    pub fn allowed_extensions(self) -> (r: Vec<&'static str>)
        ensures
            r@.map_values(|s: &'static str| s@) == allowed(self),
    {
        let r = match self {
            PsPlatform::Ps1 => vec!["cue", "bin", "chd", "iso", "img", "mdf", "pbp"],
            PsPlatform::Ps2 => vec!["iso", "chd", "cso", "bin", "cue"],
        };
        assert(r@.map_values(|s: &'static str| s@) =~= allowed(self));
        r
    }
}

/// See `PsPlatform::allowed_extensions`.
pub open spec fn allowed(p: PsPlatform) -> Seq<Seq<char>> {
    match p {
        PsPlatform::Ps1 => seq!["cue"@, "bin"@, "chd"@, "iso"@, "img"@, "mdf"@, "pbp"@],
        PsPlatform::Ps2 => seq!["iso"@, "chd"@, "cso"@, "bin"@, "cue"@],
    }
}

/// `Path::join` of a relative part on Windows: a `\` goes between unless
/// the base is empty or already ends with a separator.
pub open spec fn join_path(base: Seq<char>, rel: Seq<char>) -> Seq<char> {
    if base.len() == 0 || base.last() == '\\' || base.last() == '/' {
        base + rel
    } else {
        base + seq!['\\'] + rel
    }
}

/// See `join_path`.
pub fn join_path_exec(base: &str, rel: &str) -> (r: String)
    ensures
        r@ == join_path(base@, rel@),
{
    let b = chars_of(base);
    if b.len() == 0 || b[b.len() - 1] == '\\' || b[b.len() - 1] == '/' {
        join_str(base, rel)
    } else {
        let with = join_str(base, "\\");
        proof {
            reveal_strlit("\\");
        }
        join_str(with.as_str(), rel)
    }
}

/// `base` joined with three parts in turn.
pub open spec fn join3(base: Seq<char>, a: Seq<char>, b: Seq<char>, c: Seq<char>) -> Seq<char> {
    join_path(join_path(join_path(base, a), b), c)
}

fn join3_exec(base: &str, a: &str, b: &str, c: &str) -> (r: String)
    ensures
        r@ == join3(base@, a@, b@, c@),
{
    let x = join_path_exec(base, a);
    let y = join_path_exec(x.as_str(), b);
    join_path_exec(y.as_str(), c)
}

/// The emulators that may ship next to the loader.
pub open spec fn bundled(p: PsPlatform, dir: Seq<char>) -> Seq<Seq<char>> {
    match p {
        PsPlatform::Ps1 => seq![
            join3(dir, "emulators"@, "duckstation"@, "duckstation-qt-x64-ReleaseLTCG.exe"@),
            join3(dir, "emulators"@, "duckstation"@, "duckstation-qt.exe"@),
            join3(dir, "emulators"@, "duckstation"@, "duckstation.exe"@),
            join3(dir, "emulators"@, "ps1"@, "duckstation-qt-x64-ReleaseLTCG.exe"@),
            join_path(join_path(dir, "DuckStation"@), "duckstation-qt-x64-ReleaseLTCG.exe"@),
        ],
        PsPlatform::Ps2 => seq![
            join3(dir, "emulators"@, "pcsx2"@, "pcsx2-qt.exe"@),
            join3(dir, "emulators"@, "pcsx2"@, "pcsx2-qtx64-avx2.exe"@),
            join3(dir, "emulators"@, "pcsx2"@, "pcsx2.exe"@),
            join3(dir, "emulators"@, "ps2"@, "pcsx2-qt.exe"@),
            join_path(join_path(dir, "PCSX2"@), "pcsx2-qt.exe"@),
        ],
    }
}

/// The usual installs under the user's local application data.
pub open spec fn under_local(p: PsPlatform, local: Seq<char>) -> Seq<Seq<char>> {
    match p {
        PsPlatform::Ps1 => seq![
            join_path(local, "Programs\\DuckStation\\duckstation-qt-x64-ReleaseLTCG.exe"@),
            join_path(local, "Programs\\DuckStation\\duckstation-qt.exe"@),
            join_path(local, "DuckStation\\duckstation-qt-x64-ReleaseLTCG.exe"@),
            join_path(local, "DuckStation\\duckstation-qt.exe"@),
        ],
        PsPlatform::Ps2 => seq![
            join_path(local, "Programs\\PCSX2\\pcsx2-qt.exe"@),
            join_path(local, "Programs\\PCSX2\\pcsx2-qtx64-avx2.exe"@),
            join_path(local, "PCSX2\\pcsx2-qt.exe"@),
        ],
    }
}

/// The usual installs under `Program Files`.
pub open spec fn under_program_files(p: PsPlatform, base: Seq<char>) -> Seq<Seq<char>> {
    match p {
        PsPlatform::Ps1 => seq![
            join_path(join_path(base, "DuckStation"@), "duckstation-qt-x64-ReleaseLTCG.exe"@),
            join_path(join_path(base, "DuckStation"@), "duckstation-qt.exe"@),
        ],
        PsPlatform::Ps2 => seq![
            join_path(join_path(base, "PCSX2"@), "pcsx2-qt.exe"@),
            join_path(join_path(base, "PCSX2"@), "pcsx2-qtx64-avx2.exe"@),
            join_path(join_path(base, "PCSX2"@), "pcsx2.exe"@),
        ],
    }
}

/// The usual installs under `Program Files (x86)`.
pub open spec fn under_program_files_x86(p: PsPlatform, base: Seq<char>) -> Seq<Seq<char>> {
    match p {
        PsPlatform::Ps1 => seq![
            join_path(join_path(base, "DuckStation"@), "duckstation-qt-x64-ReleaseLTCG.exe"@),
            join_path(join_path(base, "DuckStation"@), "duckstation-qt.exe"@),
        ],
        PsPlatform::Ps2 => seq![
            join_path(join_path(base, "PCSX2"@), "pcsx2-qt.exe"@),
            join_path(join_path(base, "PCSX2"@), "pcsx2.exe"@),
        ],
    }
}

/// The view of an optional string.
pub open spec fn opt_view(o: Option<String>) -> Option<Seq<char>> {
    match o {
        Some(s) => Some(s@),
        None => None,
    }
}

/// `f(x)` where the place is known, nothing where it is not.
pub open spec fn if_known(o: Option<Seq<char>>, f: spec_fn(Seq<char>) -> Seq<Seq<char>>) -> Seq<
    Seq<char>,
> {
    match o {
        Some(x) => f(x),
        None => Seq::empty(),
    }
}

/// Where the emulator is looked for, in order: the environment override,
/// the folder of the loader's executable, local application data,
/// `Program Files`, `Program Files (x86)`.
pub open spec fn candidates(
    p: PsPlatform,
    env_override: Option<Seq<char>>,
    app_dir: Option<Seq<char>>,
    local: Option<Seq<char>>,
    program_files: Option<Seq<char>>,
    program_files_x86: Option<Seq<char>>,
) -> Seq<Seq<char>> {
    if_known(env_override, |e: Seq<char>| seq![e]) + if_known(app_dir, |d: Seq<char>| bundled(p, d))
        + if_known(local, |l: Seq<char>| under_local(p, l)) + if_known(
        program_files,
        |b: Seq<char>| under_program_files(p, b),
    ) + if_known(program_files_x86, |b: Seq<char>| under_program_files_x86(p, b))
}

fn push_s(out: &mut Vec<String>, s: String)
    ensures
        string_views(final(out)@) == string_views(old(out)@).push(s@),
{
    let ghost before = out@;
    out.push(s);
    assert(string_views(out@) =~= string_views(before).push(s@));
}

/// Adds `base` joined with `relative` where the base is known.
pub fn push_candidate(candidates: &mut Vec<String>, base: &Option<String>, relative: &str)
    ensures
        string_views(final(candidates)@) == match *base {
            Some(b) => string_views(old(candidates)@).push(join_path(b@, relative@)),
            None => string_views(old(candidates)@),
        },
{
    match base {
        Some(b) => push_s(candidates, join_path_exec(b.as_str(), relative)),
        None => {},
    }
}

fn extend_strings(out: &mut Vec<String>, more: Vec<String>)
    ensures
        string_views(final(out)@) == string_views(old(out)@) + string_views(more@),
{
    let ghost start = string_views(out@);
    let mut i: usize = 0;
    while i < more.len()
        invariant
            i <= more@.len(),
            string_views(out@) == start + string_views(more@).take(i as int),
        decreases more@.len() - i,
    {
        push_s(out, more[i].clone());
        proof {
            assert(string_views(more@).take(i + 1) =~= string_views(more@).take(i as int).push(
                more@[i as int]@,
            ));
        }
        i = i + 1;
    }
    assert(string_views(more@).take(more@.len() as int) =~= string_views(more@));
}

fn bundled_exec(platform: PsPlatform, d: &str) -> (r: Vec<String>)
    ensures
        string_views(r@) == bundled(platform, d@),
{
    let mut out: Vec<String> = Vec::new();
    match platform {
        PsPlatform::Ps1 => {
            push_s(&mut out, join3_exec(d, "emulators", "duckstation", "duckstation-qt-x64-ReleaseLTCG.exe"));
            push_s(&mut out, join3_exec(d, "emulators", "duckstation", "duckstation-qt.exe"));
            push_s(&mut out, join3_exec(d, "emulators", "duckstation", "duckstation.exe"));
            push_s(&mut out, join3_exec(d, "emulators", "ps1", "duckstation-qt-x64-ReleaseLTCG.exe"));
            let x = join_path_exec(d, "DuckStation");
            push_s(&mut out, join_path_exec(x.as_str(), "duckstation-qt-x64-ReleaseLTCG.exe"));
        },
        PsPlatform::Ps2 => {
            push_s(&mut out, join3_exec(d, "emulators", "pcsx2", "pcsx2-qt.exe"));
            push_s(&mut out, join3_exec(d, "emulators", "pcsx2", "pcsx2-qtx64-avx2.exe"));
            push_s(&mut out, join3_exec(d, "emulators", "pcsx2", "pcsx2.exe"));
            push_s(&mut out, join3_exec(d, "emulators", "ps2", "pcsx2-qt.exe"));
            let x = join_path_exec(d, "PCSX2");
            push_s(&mut out, join_path_exec(x.as_str(), "pcsx2-qt.exe"));
        },
    }
    assert(string_views(out@) =~= bundled(platform, d@));
    out
}

fn local_exec(platform: PsPlatform, local: &Option<String>) -> (r: Vec<String>)
    ensures
        string_views(r@) == if_known(opt_view(*local), |l: Seq<char>| under_local(platform, l)),
{
    let mut out: Vec<String> = Vec::new();
    match platform {
        PsPlatform::Ps1 => {
            push_candidate(&mut out, local, "Programs\\DuckStation\\duckstation-qt-x64-ReleaseLTCG.exe");
            push_candidate(&mut out, local, "Programs\\DuckStation\\duckstation-qt.exe");
            push_candidate(&mut out, local, "DuckStation\\duckstation-qt-x64-ReleaseLTCG.exe");
            push_candidate(&mut out, local, "DuckStation\\duckstation-qt.exe");
        },
        PsPlatform::Ps2 => {
            push_candidate(&mut out, local, "Programs\\PCSX2\\pcsx2-qt.exe");
            push_candidate(&mut out, local, "Programs\\PCSX2\\pcsx2-qtx64-avx2.exe");
            push_candidate(&mut out, local, "PCSX2\\pcsx2-qt.exe");
        },
    }
    proof {
        if local.is_some() {
            assert(string_views(out@) =~= under_local(platform, local.unwrap()@));
        } else {
            assert(string_views(out@) =~= Seq::<Seq<char>>::empty());
        }
    }
    out
}

fn program_files_exec(platform: PsPlatform, b: &str, x86: bool) -> (r: Vec<String>)
    ensures
        string_views(r@) == if x86 {
            under_program_files_x86(platform, b@)
        } else {
            under_program_files(platform, b@)
        },
{
    let mut out: Vec<String> = Vec::new();
    match platform {
        PsPlatform::Ps1 => {
            let x = join_path_exec(b, "DuckStation");
            push_s(&mut out, join_path_exec(x.as_str(), "duckstation-qt-x64-ReleaseLTCG.exe"));
            push_s(&mut out, join_path_exec(x.as_str(), "duckstation-qt.exe"));
        },
        PsPlatform::Ps2 => {
            let x = join_path_exec(b, "PCSX2");
            push_s(&mut out, join_path_exec(x.as_str(), "pcsx2-qt.exe"));
            if !x86 {
                push_s(&mut out, join_path_exec(x.as_str(), "pcsx2-qtx64-avx2.exe"));
            }
            push_s(&mut out, join_path_exec(x.as_str(), "pcsx2.exe"));
        },
    }
    proof {
        if x86 {
            assert(string_views(out@) =~= under_program_files_x86(platform, b@));
        } else {
            assert(string_views(out@) =~= under_program_files(platform, b@));
        }
    }
    out
}

/// See `candidates`; each place is given where the caller knows it.
pub fn emulator_candidates(
    platform: PsPlatform,
    env_override: Option<String>,
    app_dir: Option<String>,
    local: Option<String>,
    program_files: Option<String>,
    program_files_x86: Option<String>,
) -> (r: Vec<String>)
    ensures
        string_views(r@) == candidates(
            platform,
            opt_view(env_override),
            opt_view(app_dir),
            opt_view(local),
            opt_view(program_files),
            opt_view(program_files_x86),
        ),
{
    let mut out: Vec<String> = Vec::new();
    let ghost e = opt_view(env_override);
    let ghost d = opt_view(app_dir);
    let ghost l = opt_view(local);
    let ghost pf = opt_view(program_files);
    let ghost px = opt_view(program_files_x86);
    match env_override {
        Some(v) => {
            push_s(&mut out, v);
        },
        None => {},
    }
    assert(string_views(out@) =~= if_known(e, |x: Seq<char>| seq![x]));
    match &app_dir {
        Some(v) => extend_strings(&mut out, bundled_exec(platform, v.as_str())),
        None => {},
    }
    assert(string_views(out@) =~= if_known(e, |x: Seq<char>| seq![x]) + if_known(
        d,
        |x: Seq<char>| bundled(platform, x),
    ));
    extend_strings(&mut out, local_exec(platform, &local));
    let ghost s3 = string_views(out@);
    assert(s3 =~= if_known(e, |x: Seq<char>| seq![x]) + if_known(d, |x: Seq<char>| bundled(platform, x))
        + if_known(l, |x: Seq<char>| under_local(platform, x)));
    match &program_files {
        Some(v) => extend_strings(&mut out, program_files_exec(platform, v.as_str(), false)),
        None => {},
    }
    let ghost s4 = string_views(out@);
    assert(s4 =~= s3 + if_known(pf, |x: Seq<char>| under_program_files(platform, x)));
    match &program_files_x86 {
        Some(v) => extend_strings(&mut out, program_files_exec(platform, v.as_str(), true)),
        None => {},
    }
    assert(string_views(out@) =~= s4 + if_known(px, |x: Seq<char>| under_program_files_x86(platform, x)));
    out
}

/// The extension of a file name, as `Path::extension` has it: after the
/// last `.`, unless there is none or it is the first character.
pub open spec fn extension(name: Seq<char>) -> Seq<char> {
    if exists|k: int| 0 < k < name.len() && name[k] == '.' {
        let k = choose|k: int|
            0 < k < name.len() && name[k] == '.' && forall|j: int|
                k < j < name.len() ==> name[j] != '.';
        name.skip(k + 1)
    } else {
        Seq::empty()
    }
}

/// See `extension`, in ASCII lower case; a missing name has none.
pub fn file_extension(name: &Option<String>) -> (r: Vec<char>)
    ensures
        r@ == match *name {
            Some(n) => lower_all(extension(n@)),
            None => Seq::empty(),
        },
{
    let n = match name {
        None => {
            return Vec::new();
        },
        Some(n) => n,
    };
    let v = chars_of(n.as_str());
    let mut k = v.len();
    while k > 1 && v[k - 1] != '.'
        invariant
            0 <= k <= v@.len(),
            v@ == n@,
            forall|j: int| k <= j < v@.len() ==> v@[j] != '.',
        decreases k,
    {
        k = k - 1;
    }
    let ext = if k > 1 {
        proof {
            let kk = k - 1;
            let c = choose|c: int|
                0 < c < v@.len() && v@[c] == '.' && forall|j: int| c < j < v@.len() ==> v@[j] != '.';
            assert(0 < kk < v@.len() && v@[kk] == '.' && forall|j: int| kk < j < v@.len() ==> v@[j] != '.');
            if c < kk {
                assert(v@[kk] != '.');
            } else if c > kk {
                assert(v@[c] != '.');
            }
        }
        crate::text::slice_vec(&v, k, v.len())
    } else {
        proof {
            assert forall|c: int| !(0 < c < v@.len() && v@[c] == '.') by {
                if 0 < c < v@.len() {
                    assert(c >= k);
                }
            }
        }
        Vec::new()
    };
    let es = crate::text::string_from(ext.as_slice());
    to_lower(es.as_str())
}

/// `e` is one of the platform's extensions.
pub open spec fn extension_allowed(p: PsPlatform, e: Seq<char>) -> bool {
    allowed(p).contains(e)
}

fn allowed_has(p: PsPlatform, e: &Vec<char>) -> (r: bool)
    ensures
        r == extension_allowed(p, e@),
{
    let list = p.allowed_extensions();
    let mut i: usize = 0;
    while i < list.len()
        invariant
            i <= list@.len(),
            list@.map_values(|s: &'static str| s@) == allowed(p),
            forall|j: int| 0 <= j < i ==> allowed(p)[j] != e@,
        decreases list@.len() - i,
    {
        let w = chars_of(list[i]);
        proof {
            assert(list@.map_values(|s: &'static str| s@)[i as int] == list@[i as int]@);
        }
        if crate::text::range_eq(e, 0, e.len(), &w) {
            proof {
                assert(e@.subrange(0, e@.len() as int) =~= e@);
                assert(allowed(p)[i as int] == e@);
            }
            return true;
        }
        proof {
            assert(e@.subrange(0, e@.len() as int) =~= e@);
        }
        i = i + 1;
    }
    false
}

/// The message for a game file of the wrong kind: the platform, the file's
/// extension and the extensions it takes.
pub open spec fn unsupported_file_text(p: PsPlatform, ext: Seq<char>) -> Seq<char> {
    label_of(p) + " için desteklenmeyen oyun dosyası: ."@ + ext + "\n\nDesteklenen formatlar: "@
        + joined(allowed(p), ", "@)
}

/// The platform's name as `label` gives it.
pub open spec fn label_of(p: PsPlatform) -> Seq<char> {
    match p {
        PsPlatform::Ps1 => "PlayStation 1"@,
        PsPlatform::Ps2 => "PlayStation 2"@,
    }
}

fn allowed_texts(platform: PsPlatform) -> (r: Vec<String>)
    ensures
        string_views(r@) == allowed(platform),
{
    let exts = platform.allowed_extensions();
    let mut out: Vec<String> = Vec::new();
    let mut i: usize = 0;
    while i < exts.len()
        invariant
            i <= exts@.len(),
            out@.len() == i,
            forall|k: int| 0 <= k < i ==> #[trigger] out@[k]@ == exts@[k]@,
        decreases exts@.len() - i,
    {
        let e: &str = exts[i];
        out.push(e.to_owned());
        i = i + 1;
    }
    proof {
        let m = exts@.map_values(|s: &'static str| s@);
        assert(m == allowed(platform));
        assert forall|k: int| 0 <= k < out@.len() implies #[trigger] string_views(out@)[k] == m[k] by {
            assert(out@[k]@ == exts@[k]@);
        }
        assert(string_views(out@) =~= m);
    }
    out
}

/// Checks a game image chosen for a platform: it must exist, be a file and
/// have one of the platform's extensions (ASCII case ignored). `name` is
/// the file's name where it is valid UTF-8. Each refusal is an `Other`
/// error with its message.
pub fn validate_ps_game_file(platform: PsPlatform, exists: bool, is_file: bool, name: &Option<String>) -> (r:
    Result<(), LoaderError>)
    ensures
        r is Ok <==> exists && is_file && extension_allowed(
            platform,
            match *name {
                Some(n) => lower_all(extension(n@)),
                None => Seq::empty(),
            },
        ),
        !exists ==> (r matches Err(LoaderError::Other(m)) && m@ == "Seçilen oyun dosyası bulunamadı."@),
        exists && !is_file ==> (r matches Err(LoaderError::Other(m)) && m@
            == "Seçilen yol bir oyun dosyası değil."@),
        exists && is_file && r is Err ==> (r matches Err(LoaderError::Other(m)) && m@
            == unsupported_file_text(
            platform,
            match *name {
                Some(n) => lower_all(extension(n@)),
                None => Seq::empty(),
            },
        )),
{
    if !exists {
        return Err(LoaderError::Other("Seçilen oyun dosyası bulunamadı.".to_owned()));
    }
    if !is_file {
        return Err(LoaderError::Other("Seçilen yol bir oyun dosyası değil.".to_owned()));
    }
    let ext = file_extension(name);
    if !allowed_has(platform, &ext) {
        proof {
            reveal_strlit(" için desteklenmeyen oyun dosyası: .");
            reveal_strlit("\n\nDesteklenen formatlar: ");
            reveal_strlit(", ");
        }
        let a = join_str(platform.label(), " için desteklenmeyen oyun dosyası: .");
        let ext_text = string_from(ext.as_slice());
        let b = join_str(a.as_str(), ext_text.as_str());
        let c = join_str(b.as_str(), "\n\nDesteklenen formatlar: ");
        let list = join_with(&allowed_texts(platform), ", ");
        return Err(LoaderError::Other(join_str(c.as_str(), list.as_str())));
    }
    Ok(())
}

/// The emulator's executable: a file whose name (ASCII case ignored)
/// contains `duckstation` (PS1) or `pcsx2` (PS2).
pub open spec fn emulator_ok(p: PsPlatform, is_file: bool, name: Option<Seq<char>>) -> bool {
    let n = match name {
        Some(x) => lower_all(x),
        None => Seq::empty(),
    };
    is_file && match p {
        PsPlatform::Ps1 => contains_chars(n, "duckstation"@),
        PsPlatform::Ps2 => contains_chars(n, "pcsx2"@),
    }
}

/// See `emulator_ok`.
pub fn emulator_executable_valid(platform: PsPlatform, is_file: bool, name: &Option<String>) -> (r: bool)
    ensures
        r == emulator_ok(platform, is_file, opt_view(*name)),
{
    if !is_file {
        return false;
    }
    let n = match name {
        Some(x) => to_lower(x.as_str()),
        None => Vec::new(),
    };
    let needle = match platform {
        PsPlatform::Ps1 => chars_of("duckstation"),
        PsPlatform::Ps2 => chars_of("pcsx2"),
    };
    crate::download::contains_in(&n, &needle)
}

/// Which emulator is started.
pub enum EmulatorChoice {
    /// The one remembered from before (still valid).
    Saved,
    /// Candidate `i`, the first valid one; it is remembered from now on.
    Found(usize),
    /// None was found: the user is asked to pick one.
    AskUser,
}

/// The remembered emulator where it is still valid, else the first valid
/// candidate, else the user's pick.
pub fn choose_emulator(saved_valid: bool, candidate_valid: &Vec<bool>) -> (r: EmulatorChoice)
    ensures
        saved_valid ==> r is Saved,
        !saved_valid ==> match r {
            EmulatorChoice::Found(i) => i < candidate_valid@.len() && candidate_valid@[i as int]
                && forall|j: int| 0 <= j < i ==> !candidate_valid@[j],
            EmulatorChoice::AskUser => forall|j: int|
                0 <= j < candidate_valid@.len() ==> !candidate_valid@[j],
            EmulatorChoice::Saved => false,
        },
{
    if saved_valid {
        return EmulatorChoice::Saved;
    }
    let mut i: usize = 0;
    while i < candidate_valid.len()
        invariant
            !saved_valid,
            i <= candidate_valid@.len(),
            forall|j: int| 0 <= j < i ==> !candidate_valid@[j],
        decreases candidate_valid@.len() - i,
    {
        if candidate_valid[i] {
            return EmulatorChoice::Found(i);
        }
        i = i + 1;
    }
    EmulatorChoice::AskUser
}

/// The arguments an emulator is started with for a chosen game file: batch
/// mode, full screen, then the file after `--`.
pub fn launch_args(game_path: &str) -> (r: Vec<String>)
    ensures
        string_views(r@) == seq!["-batch"@, "-fullscreen"@, "--"@, game_path@],
{
    let r = vec!["-batch".to_owned(), "-fullscreen".to_owned(), "--".to_owned(), game_path.to_owned()];
    assert(string_views(r@) =~= seq!["-batch"@, "-fullscreen"@, "--"@, game_path@]);
    r
}

/// The arguments for a game image found in an installed package: batch
/// mode, full screen, then the image.
pub fn installed_launch_args(image: &str) -> (r: Vec<String>)
    ensures
        string_views(r@) == seq!["-batch"@, "-fullscreen"@, image@],
{
    let r = vec!["-batch".to_owned(), "-fullscreen".to_owned(), image.to_owned()];
    assert(string_views(r@) =~= seq!["-batch"@, "-fullscreen"@, image@]);
    r
}

/// The folder the loader keeps a PlayStation game in:
/// `AnimusPatchLoader\emulated-games\game-<id>` under local application
/// data. Game id 0 is refused, as is an unknown local data folder.
pub open spec fn emulated_game_dir(local: Seq<char>, game_id: u64) -> Seq<char> {
    join3(local, "AnimusPatchLoader"@, "emulated-games"@, "game-"@ + dec_chars(game_id as nat))
}

/// See `emulated_game_dir`.
pub fn prepare_ps_game_root(local: &Option<String>, game_id: u64) -> (r: Result<String, LoaderError>)
    ensures
        game_id == 0 ==> (r matches Err(LoaderError::Other(m)) && m@
            == "Geçersiz PlayStation oyun kimliği."@),
        game_id != 0 && local is None ==> (r matches Err(LoaderError::Other(m)) && m@
            == "Windows LocalAppData klasörü bulunamadı."@),
        game_id != 0 && local is Some ==> (r matches Ok(p) && p@ == emulated_game_dir(
            local.unwrap()@,
            game_id,
        )),
{
    if game_id == 0 {
        return Err(LoaderError::Other("Geçersiz PlayStation oyun kimliği.".to_owned()));
    }
    let l = match local {
        None => {
            return Err(LoaderError::Other("Windows LocalAppData klasörü bulunamadı.".to_owned()));
        },
        Some(l) => l,
    };
    let d = decimal(game_id);
    let name = join_str("game-", d.as_str());
    Ok(join3_exec(l.as_str(), "AnimusPatchLoader", "emulated-games", name.as_str()))
}

/// A managed PlayStation title installs only into its own folder: the
/// canonical game folder given must be that folder's canonical form
/// (compared component by component); `None` stands for a folder that
/// could not be resolved.
pub fn validate_install_root(actual_real: &Option<String>, expected_real: &Option<String>) -> (r: Result<
    (),
    LoaderError,
>)
    ensures
        r is Ok <==> (actual_real matches Some(a) && expected_real matches Some(e)
            && crate::storage::parts(a@) == crate::storage::parts(e@)),
        actual_real is None ==> (r matches Err(LoaderError::Other(m)) && m@
            == "Animus PlayStation oyun klasörü okunamadı"@),
        actual_real is Some && expected_real is None ==> (r matches Err(LoaderError::Other(m)) && m@
            == "Animus PlayStation hedef klasörü okunamadı"@),
        actual_real is Some && expected_real is Some && r is Err ==> (r matches Err(
            LoaderError::Other(m),
        ) && m@ == "PlayStation oyunu yalnizca Animus'un yonettigi oyun klasorune kurulabilir."@),
{
    let a = match actual_real {
        None => {
            return Err(LoaderError::Other("Animus PlayStation oyun klasörü okunamadı".to_owned()));
        },
        Some(a) => a,
    };
    let e = match expected_real {
        None => {
            return Err(LoaderError::Other("Animus PlayStation hedef klasörü okunamadı".to_owned()));
        },
        Some(e) => e,
    };
    if !crate::storage::same_path(a.as_str(), e.as_str()) {
        return Err(
            LoaderError::Other(
                "PlayStation oyunu yalnizca Animus'un yonettigi oyun klasorune kurulabilir.".to_owned(),
            ),
        );
    }
    Ok(())
}

/// The folder of the loader's emulator settings: `AnimusPatchLoader\emulators`
/// under local application data.
pub fn emulator_config_directory(local: &Option<String>) -> (r: Result<String, LoaderError>)
    ensures
        match *local {
            Some(l) => r matches Ok(p) && p@ == join_path(join_path(l@, "AnimusPatchLoader"@), "emulators"@),
            None => (r matches Err(LoaderError::Other(m)) && m@ == "Windows LocalAppData klasörü bulunamadı."@),
        },
{
    match local {
        None => Err(LoaderError::Other("Windows LocalAppData klasörü bulunamadı.".to_owned())),
        Some(l) => {
            let a = join_path_exec(l.as_str(), "AnimusPatchLoader");
            Ok(join_path_exec(a.as_str(), "emulators"))
        },
    }
}

/// The emulator path remembered in a settings file: its trimmed text.
pub fn saved_emulator_path(content: &str) -> (r: String)
    ensures
        r@ == trim(content@),
{
    let v = chars_of(content);
    proof {
        assert(v@.subrange(0, v@.len() as int) =~= v@);
    }
    let (a, b) = trim_bounds(&v, 0, v.len());
    let t = crate::text::slice_vec(&v, a, b);
    crate::text::string_from(t.as_slice())
}

/// The image extensions looked for in an installed package, in order of
/// preference (a PS1 CUE before its BIN, PS2 ISO/CHD first).
pub open spec fn preferred(p: PsPlatform) -> Seq<Seq<char>> {
    match p {
        PsPlatform::Ps1 => seq!["cue"@, "chd"@, "pbp"@, "iso"@, "img"@, "mdf"@, "bin"@],
        PsPlatform::Ps2 => seq!["iso"@, "chd"@, "cso"@, "cue"@, "bin"@],
    }
}

fn preferred_exec(p: PsPlatform) -> (r: Vec<&'static str>)
    ensures
        r@.map_values(|s: &'static str| s@) == preferred(p),
{
    let r = match p {
        PsPlatform::Ps1 => vec!["cue", "chd", "pbp", "iso", "img", "mdf", "bin"],
        PsPlatform::Ps2 => vec!["iso", "chd", "cso", "cue", "bin"],
    };
    assert(r@.map_values(|s: &'static str| s@) =~= preferred(p));
    r
}

/// One entry of the walk over an installed PlayStation game folder, in walk
/// order: whether it is a file, its name, and its canonical path (`None`
/// where it could not be resolved).
pub struct WalkEntry {
    pub is_file: bool,
    pub name: Option<String>,
    pub canonical: Option<String>,
}

/// Entry `i` is a file with extension `ext`.
pub open spec fn entry_has(es: Seq<WalkEntry>, i: int, ext: Seq<char>) -> bool {
    es[i].is_file && match es[i].name {
        Some(n) => lower_all(extension(n@)) == ext,
        None => Seq::<char>::empty() == ext,
    }
}

/// A matching entry is taken when it resolves inside the folder; one that
/// does not resolve ends the search with an error.
pub open spec fn entry_taken(es: Seq<WalkEntry>, i: int, root: Seq<char>) -> bool {
    match es[i].canonical {
        Some(c) => within(c@, root),
        None => true,
    }
}

/// The index of the preferred extension and entry where the search stops:
/// the first extension (in order of preference) with a matching entry that
/// is taken, and its first such entry.
pub open spec fn image_at(p: PsPlatform, es: Seq<WalkEntry>, root: Seq<char>, x: int, i: int) -> bool {
    &&& 0 <= x < preferred(p).len()
    &&& 0 <= i < es.len()
    &&& entry_has(es, i, preferred(p)[x]) && entry_taken(es, i, root)
    &&& forall|j: int| 0 <= j < i ==> !(#[trigger] entry_has(es, j, preferred(p)[x]) && entry_taken(es, j, root))
    &&& forall|y: int, j: int|
        0 <= y < x && 0 <= j < es.len() ==> !(#[trigger] entry_has(es, j, preferred(p)[y])
            && entry_taken(es, j, root))
}

/// Finds the game image of an installed package (see `image_at`): its
/// canonical path, or an error where the chosen entry could not be resolved
/// or nothing matches. `root` is the folder's canonical path.
pub fn find_installed_ps_game_image(platform: PsPlatform, root: &str, entries: &Vec<WalkEntry>) -> (r:
    Result<String, LoaderError>)
    ensures
        match r {
            Ok(c) => exists|x: int, i: int|
                image_at(platform, entries@, root@, x, i) && entries@[i].canonical == Some(c),
            Err(_) => (forall|x: int, i: int| !image_at(platform, entries@, root@, x, i))
                || exists|x: int, i: int|
                image_at(platform, entries@, root@, x, i) && entries@[i].canonical is None,
        },
        (forall|x: int, i: int| !image_at(platform, entries@, root@, x, i)) ==> (r matches Err(
            LoaderError::Other(m),
        ) && m@ == match platform {
            PsPlatform::Ps1 => "Kurulan paketin içinde PS1 oyun dosyası bulunamadı. CUE/CHD/PBP/ISO/BIN aranmıştır."@,
            PsPlatform::Ps2 => "Kurulan paketin içinde PS2 oyun dosyası bulunamadı. ISO/CHD/CSO/CUE/BIN aranmıştır."@,
        }),
        (exists|x: int, i: int|
            image_at(platform, entries@, root@, x, i) && entries@[i].canonical is None) ==> (r matches Err(
            LoaderError::Other(m),
        ) && m@ == "PlayStation oyun imajı okunamadı"@),
{
    let prefs = preferred_exec(platform);
    let ghost pv = preferred(platform);
    let mut x: usize = 0;
    while x < prefs.len()
        invariant
            x <= prefs@.len(),
            prefs@.map_values(|s: &'static str| s@) == pv,
            pv == preferred(platform),
            forall|y: int, j: int|
                0 <= y < x && 0 <= j < entries@.len() ==> !(#[trigger] entry_has(entries@, j, pv[y])
                    && entry_taken(entries@, j, root@)),
        decreases prefs@.len() - x,
    {
        let want = chars_of(prefs[x]);
        proof {
            assert(prefs@.map_values(|s: &'static str| s@)[x as int] == prefs@[x as int]@);
        }
        let mut i: usize = 0;
        while i < entries.len()
            invariant
                x < prefs@.len(),
                prefs@.map_values(|s: &'static str| s@) == pv,
                pv == preferred(platform),
                want@ == pv[x as int],
                i <= entries@.len(),
                forall|y: int, j: int|
                    0 <= y < x && 0 <= j < entries@.len() ==> !(#[trigger] entry_has(entries@, j, pv[y])
                        && entry_taken(entries@, j, root@)),
                forall|j: int|
                    0 <= j < i ==> !(#[trigger] entry_has(entries@, j, pv[x as int]) && entry_taken(
                        entries@,
                        j,
                        root@,
                    )),
            decreases entries@.len() - i,
        {
            let e = &entries[i];
            if e.is_file {
                let ext = file_extension(&e.name);
                let same = crate::text::range_eq(&ext, 0, ext.len(), &want);
                proof {
                    assert(ext@.subrange(0, ext@.len() as int) =~= ext@);
                    if !same {
                        assert(!entry_has(entries@, i as int, pv[x as int]));
                    }
                }
                if same {
                    proof {
                        assert(entry_has(entries@, i as int, pv[x as int]));
                    }
                    match &e.canonical {
                        None => {
                            proof {
                                assert(image_at(platform, entries@, root@, x as int, i as int));
                            }
                            return Err(LoaderError::Other("PlayStation oyun imajı okunamadı".to_owned()));
                        },
                        Some(c) => {
                            if crate::security::path::path_within(c.as_str(), root) {
                                proof {
                                    assert(image_at(platform, entries@, root@, x as int, i as int));
                                }
                                return Ok(c.clone());
                            }
                            proof {
                                assert(!entry_taken(entries@, i as int, root@));
                            }
                        },
                    }
                }
            }
            proof {
                assert(!(entry_has(entries@, i as int, pv[x as int]) && entry_taken(entries@, i as int, root@)));
            }
            i = i + 1;
        }
        x = x + 1;
    }
    Err(
        LoaderError::Other(
            match platform {
                PsPlatform::Ps1 => "Kurulan paketin içinde PS1 oyun dosyası bulunamadı. CUE/CHD/PBP/ISO/BIN aranmıştır.".to_owned(),
                PsPlatform::Ps2 => "Kurulan paketin içinde PS2 oyun dosyası bulunamadı. ISO/CHD/CSO/CUE/BIN aranmıştır.".to_owned(),
            },
        ),
    )
}

/// Opens only HTTPS links, and hands the browser the URL as `url` writes it:
/// the target, or an error for what does not parse or is not HTTPS.
pub fn open_external(url: &str) -> (r: Result<String, LoaderError>)
    ensures
        match url_parts(url.spec_bytes()) {
            None => r matches Err(LoaderError::Other(m)) && m@ == "Geçersiz bağlantı."@,
            Some(p) => if p.0 == "https"@ {
                r matches Ok(t) && t@ == p.3
            } else {
                r matches Err(LoaderError::Other(m)) && m@ == "Yalnız HTTPS bağlantıları açılabilir."@
            },
        },
{
    let parsed = match parse_download_url(url) {
        None => {
            return Err(LoaderError::Other("Geçersiz bağlantı.".to_owned()));
        },
        Some(p) => p,
    };
    if !str_eq(parsed.scheme.as_str(), "https") {
        return Err(LoaderError::Other("Yalnız HTTPS bağlantıları açılabilir.".to_owned()));
    }
    Ok(parsed.href)
}

} // verus!
