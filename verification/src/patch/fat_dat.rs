//! Native FAT2 v10 update: one new, uncompressed entry is appended to the DAT
//! file and its FAT record is pointed at it. The checks of install, restore
//! and verification live here; the files are read and written by the caller.
use crate::error::LoaderError;
use crate::hashing::{digest, digest_hex, Sha256State};
use crate::models::{Action, ActionOption, ChangeKind, ChangeRecord, OptionValue};
use crate::text::{
    chars_of, concat, ends_with, eq_ignore_case, hex_digit, str_eq_ignore_case, is_hex_digit, range_eq, slice_vec, split_char,
    split_ranges, str_eq,
};
use vstd::prelude::*;

verus! {

/// Largest payload the loader appends (128 MiB).
pub const MAX_PAYLOAD: u64 = 134217728;

/// Largest FAT file the loader reads (64 MiB).
pub const MAX_FAT: u64 = 67108864;

/// `FAT2` read as a little-endian `u32`.
pub const FAT_MAGIC: u32 = 0x46415432;

/// The little-endian `u32` stored at `b[p..p+4]`.
pub open spec fn le32(b: Seq<u8>, p: int) -> int {
    b[p] as int + 256 * b[p + 1] + 65536 * b[p + 2] + 16777216 * b[p + 3]
}

/// The little-endian `u64` stored at `b[p..p+8]`.
pub open spec fn le64(b: Seq<u8>, p: int) -> int {
    le32(b, p) + 4294967296 * le32(b, p + 4)
}

/// A FAT2 v10 header.
pub open spec fn header_ok(f: Seq<u8>) -> bool {
    f.len() >= 32 && le32(f, 0) == FAT_MAGIC && le32(f, 4) == 10
}

/// The number of records the header announces.
pub open spec fn record_count(f: Seq<u8>) -> int {
    le32(f, 20)
}

/// A full archive: more than one record, all inside the file.
pub open spec fn count_ok(f: Seq<u8>) -> bool {
    record_count(f) > 1 && record_count(f) <= (f.len() - 24) / 20
}

/// Where record `i` starts.
pub open spec fn record_pos(i: int) -> int {
    24 + 20 * i
}

/// The name hash of record `i`.
pub open spec fn record_hash(f: Seq<u8>, i: int) -> int {
    le64(f, record_pos(i))
}

/// The DAT offset of record `i`: eight times its block field plus the top
/// three bits of its size word.
pub open spec fn record_offset(f: Seq<u8>, i: int) -> int {
    le32(f, record_pos(i) + 12) * 8 + le32(f, record_pos(i) + 16) / 536870912
}

/// The size of record `i`: the packed size of an uncompressed record, the low
/// 29 bits of the size word otherwise.
pub open spec fn record_size(f: Seq<u8>, i: int) -> int {
    let u = le32(f, record_pos(i) + 8);
    if u % 4 == 0 {
        u / 4
    } else {
        le32(f, record_pos(i) + 16) % 536870912
    }
}

/// Record `i` lies inside a DAT of `dat_len` bytes.
pub open spec fn record_bounded(f: Seq<u8>, i: int, dat_len: int) -> bool {
    record_offset(f, i) <= dat_len && record_size(f, i) <= dat_len - record_offset(f, i)
}

/// The FAT is a full FAT2 v10 table whose records all lie inside the DAT and
/// exactly one record carries the `target` hash.
pub open spec fn fat_ok(f: Seq<u8>, dat_len: int, target: int) -> bool {
    &&& header_ok(f)
    &&& count_ok(f)
    &&& forall|i: int| 0 <= i < record_count(f) ==> record_bounded(f, i, dat_len)
    &&& exists|i: int| 0 <= i < record_count(f) && record_hash(f, i) == target
    &&& forall|i: int, j: int|
        0 <= i < j < record_count(f) && record_hash(f, i) == target ==> record_hash(f, j)
            != target
}

/// The little-endian `u32` at `b[p..p+4]`.
pub fn u32_at(b: &[u8], p: usize) -> (r: u32)
    requires
        p + 4 <= b@.len(),
    ensures
        r == le32(b@, p as int),
{
    b[p] as u32 + (b[p + 1] as u32) * 256 + (b[p + 2] as u32) * 65536 + (b[p + 3] as u32)
        * 16777216
}

/// The little-endian `u64` at `b[p..p+8]`.
pub fn u64_at(b: &[u8], p: usize) -> (r: u64)
    requires
        p + 8 <= b@.len(),
    ensures
        r == le64(b@, p as int),
{
    let _n = b.len();
    let lo = u32_at(b, p) as u64;
    let hi = u32_at(b, p + 4) as u64;
    lo + hi * 4294967296
}

/// The bytes of `v`, little-endian.
pub open spec fn le_bytes(v: u32) -> Seq<u8> {
    seq![
        (v % 256) as u8,
        ((v / 256) % 256) as u8,
        ((v / 65536) % 256) as u8,
        (v / 16777216) as u8,
    ]
}

proof fn lemma_le_bytes(v: u32)
    ensures
        le32(le_bytes(v), 0) == v,
{
    let b = le_bytes(v);
    assert(v / 16777216 < 256) by (nonlinear_arith);
    assert(v == v % 256 + 256 * ((v / 256) % 256) + 65536 * ((v / 65536) % 256) + 16777216 * (v
        / 16777216)) by (nonlinear_arith);
}

/// Write `v` little-endian at `b[p..p+4]`.
pub fn put(b: &mut Vec<u8>, p: usize, v: u32)
    requires
        p + 4 <= old(b)@.len(),
    ensures
        final(b)@.len() == old(b)@.len(),
        final(b)@.subrange(p as int, p + 4) == le_bytes(v),
        forall|k: int| 0 <= k < old(b)@.len() && !(p <= k < p + 4) ==> final(b)@[k] == old(b)@[k],
        le32(final(b)@, p as int) == v,
{
    proof {
        assert(v / 16777216 < 256) by (nonlinear_arith);
    }
    let _n = b.len();
    b.set(p, (v % 256) as u8);
    b.set(p + 1, ((v / 256) % 256) as u8);
    b.set(p + 2, ((v / 65536) % 256) as u8);
    b.set(p + 3, (v / 16777216) as u8);
    proof {
        assert(b@.subrange(p as int, p + 4) =~= le_bytes(v));
        lemma_le_bytes(v);
    }
}

/// The hash, DAT offset and size of record `i`.
pub fn record_at(fat: &[u8], i: usize) -> (r: (u64, u64, u64))
    requires
        record_pos(i as int) + 20 <= fat@.len(),
    ensures
        r.0 == record_hash(fat@, i as int),
        r.1 == record_offset(fat@, i as int),
        r.2 == record_size(fat@, i as int),
{
    let _n = fat.len();
    let p = 24 + 20 * i;
    let u = u32_at(fat, p + 8);
    let o = u32_at(fat, p + 12);
    let c = u32_at(fat, p + 16);
    let offset = (o as u64) * 8 + (c / 536870912) as u64;
    let size: u64 = if u % 4 == 0 {
        (u / 4) as u64
    } else {
        (c % 536870912) as u64
    };
    (u64_at(fat, p), offset, size)
}

/// Record `i` stops a scan of the table: it lies outside the DAT, or it is a
/// second record with the target hash.
pub open spec fn record_problem(f: Seq<u8>, dat_len: int, target: int, i: int) -> bool {
    ||| !record_bounded(f, i, dat_len)
    ||| (record_hash(f, i) == target && exists|j: int| 0 <= j < i && #[trigger] record_hash(f, j) == target)
}

/// `i` is the first record that stops the scan.
pub open spec fn first_problem(f: Seq<u8>, dat_len: int, target: int, i: int) -> bool {
    &&& 0 <= i < record_count(f)
    &&& record_problem(f, dat_len, target, i)
    &&& forall|j: int| 0 <= j < i ==> !#[trigger] record_problem(f, dat_len, target, j)
}

/// Why a table is refused, in the order of the checks: header, record
/// count, the first record that stops the scan, a missing target.
pub open spec fn parse_refusal_text(f: Seq<u8>, dat_len: int, target: int) -> Seq<char> {
    if !header_ok(f) {
        "FAT2 v10 gerekli"@
    } else if !count_ok(f) {
        "Tam FAT arşivi gerekli; mini FAT kabul edilmez"@
    } else if exists|i: int| #[trigger] first_problem(f, dat_len, target, i) {
        let i = choose|i: int| #[trigger] first_problem(f, dat_len, target, i);
        if !record_bounded(f, i, dat_len) {
            "FAT/DAT kayıt sınırı hatası"@
        } else {
            "FAT hedef kaydı birden fazla"@
        }
    } else {
        "FAT hedef kaydı bulunamadı"@
    }
}

proof fn lemma_first_problem_unique(f: Seq<u8>, dat_len: int, target: int, i: int)
    requires
        first_problem(f, dat_len, target, i),
    ensures
        (choose|k: int| #[trigger] first_problem(f, dat_len, target, k)) == i,
{
    let c = choose|k: int| #[trigger] first_problem(f, dat_len, target, k);
    assert(first_problem(f, dat_len, target, c));
    if c < i {
        assert(!record_problem(f, dat_len, target, c));
    } else if i < c {
        assert(!record_problem(f, dat_len, target, i));
    }
}

/// Find the one record whose hash is `target` in a FAT2 v10 table whose
/// records must all lie inside a DAT of `dat_len` bytes. On success the
/// record's byte position in the table is returned; any other table is
/// refused as `Integrity`.
pub fn parse(fat: &[u8], dat_len: u64, target: u64) -> (r: Result<usize, LoaderError>)
    ensures
        r is Ok <==> fat_ok(fat@, dat_len as int, target as int),
        r matches Ok(p) ==> exists|i: int|
            0 <= i < record_count(fat@) && p == record_pos(i) && record_hash(fat@, i) == target,
        r matches Err(e) ==> (e matches LoaderError::Integrity(m) && m@ == parse_refusal_text(
            fat@,
            dat_len as int,
            target as int,
        )),
{
    if !(fat.len() >= 32 && u32_at(fat, 0) == FAT_MAGIC && u32_at(fat, 4) == 10) {
        return Err(LoaderError::Integrity("FAT2 v10 gerekli".to_owned()));
    }
    let count = u32_at(fat, 20) as usize;
    if !(count > 1 && count <= (fat.len() - 24) / 20) {
        return Err(
            LoaderError::Integrity("Tam FAT arşivi gerekli; mini FAT kabul edilmez".to_owned()),
        );
    }
    let ghost f = fat@;
    let n = fat.len();
    let mut found: Option<usize> = None;
    let ghost mut fidx: int = 0;
    let mut i: usize = 0;
    while i < count
        invariant
            f == fat@,
            n == f.len(),
            header_ok(f),
            count == record_count(f),
            count_ok(f),
            i <= count,
            forall|j: int| 0 <= j < i ==> record_bounded(f, j, dat_len as int),
            forall|j: int| 0 <= j < i ==> !#[trigger] record_problem(f, dat_len as int, target as int, j),
            found is None ==> forall|j: int| 0 <= j < i ==> record_hash(f, j) != target,
            found matches Some(p) ==> {
                &&& 0 <= fidx < i
                &&& p == record_pos(fidx)
                &&& record_hash(f, fidx) == target
                &&& forall|k: int| 0 <= k < i && k != fidx ==> record_hash(f, k) != target
            },
        decreases count - i,
    {
        let (h, offset, size) = record_at(fat, i);
        if !(offset <= dat_len && size <= dat_len - offset) {
            proof {
                assert(!record_bounded(f, i as int, dat_len as int));
                assert(first_problem(f, dat_len as int, target as int, i as int));
                lemma_first_problem_unique(f, dat_len as int, target as int, i as int);
            }
            return Err(LoaderError::Integrity("FAT/DAT kayıt sınırı hatası".to_owned()));
        }
        if h == target {
            if found.is_some() {
                proof {
                    assert(record_hash(f, fidx) == target && record_hash(f, i as int) == target);
                    assert(record_problem(f, dat_len as int, target as int, i as int));
                    assert(first_problem(f, dat_len as int, target as int, i as int));
                    lemma_first_problem_unique(f, dat_len as int, target as int, i as int);
                }
                return Err(LoaderError::Integrity("FAT hedef kaydı birden fazla".to_owned()));
            }
            found = Some(24 + 20 * i);
            proof {
                fidx = i as int;
            }
        }
        i = i + 1;
    }
    match found {
        Some(p) => {
            proof {
                assert forall|a: int, b: int|
                    0 <= a < b < record_count(f) && record_hash(f, a) == target implies record_hash(
                    f,
                    b,
                ) != target by {
                    if a != fidx {
                    }
                }
            }
            Ok(p)
        },
        None => Err(LoaderError::Integrity("FAT hedef kaydı bulunamadı".to_owned())),
    }
}

} // verus!

verus! {

/// The options of an `APPEND_FAT_DAT` action.
pub struct Options {
    pub fat_path: String,
    pub fat_entry_hash: String,
    pub base_dat_sha256: String,
    pub base_fat_sha256: String,
    pub payload_sha256: String,
    pub alignment: u64,
    pub compression: String,
}

/// The field an option key names: 0 `fat_path`, 1 `fat_entry_hash`,
/// 2 `base_dat_sha256`, 3 `base_fat_sha256`, 4 `payload_sha256`,
/// 5 `alignment`, 6 `compression`; -1 for any other key.
pub open spec fn option_key(k: Seq<char>) -> int {
    if k == "fat_path"@ {
        0
    } else if k == "fat_entry_hash"@ {
        1
    } else if k == "base_dat_sha256"@ {
        2
    } else if k == "base_fat_sha256"@ {
        3
    } else if k == "payload_sha256"@ {
        4
    } else if k == "alignment"@ {
        5
    } else if k == "compression"@ {
        6
    } else {
        -1
    }
}

/// The value of field `k` has the field's type (`alignment` is a number,
/// the others are strings).
pub open spec fn value_fits(k: int, v: OptionValue) -> bool {
    if k == 5 {
        v is Unsigned
    } else {
        v is Text
    }
}

/// The text of a string value.
pub open spec fn text_value(v: OptionValue) -> Seq<char> {
    match v {
        OptionValue::Text(t) => t@,
        _ => Seq::<char>::empty(),
    }
}

/// The number of a numeric value.
pub open spec fn unsigned_value(v: OptionValue) -> u64 {
    match v {
        OptionValue::Unsigned(n) => n,
        _ => 0,
    }
}

/// The options object has exactly the seven fields, each once and with its
/// type, and nothing else (unknown keys are refused).
pub open spec fn options_shape_ok(o: Seq<ActionOption>) -> bool {
    &&& forall|j: int|
        0 <= j < o.len() ==> 0 <= #[trigger] option_key(o[j].key@) < 7 && value_fits(
            option_key(o[j].key@),
            o[j].value,
        )
    &&& forall|a: int, b: int|
        0 <= a < b < o.len() ==> #[trigger] option_key(o[a].key@) != #[trigger] option_key(
            o[b].key@,
        )
    &&& forall|k: int| 0 <= k < 7 ==> #[trigger] key_present(o, k)
}

/// Some key of the options object names field `k`.
pub open spec fn key_present(o: Seq<ActionOption>, k: int) -> bool {
    exists|j: int| 0 <= j < o.len() && #[trigger] option_key(o[j].key@) == k
}

/// Field `k` of the options object holds the text `t`.
pub open spec fn has_text(o: Seq<ActionOption>, k: int, t: Seq<char>) -> bool {
    forall|j: int| 0 <= j < o.len() && #[trigger] option_key(o[j].key@) == k ==> text_value(o[j].value) == t
}

/// The options `r` are those that the object `o` holds.
pub open spec fn options_from(o: Seq<ActionOption>, r: Options) -> bool {
    &&& has_text(o, 0, r.fat_path@)
    &&& has_text(o, 1, r.fat_entry_hash@)
    &&& has_text(o, 2, r.base_dat_sha256@)
    &&& has_text(o, 3, r.base_fat_sha256@)
    &&& has_text(o, 4, r.payload_sha256@)
    &&& forall|j: int| 0 <= j < o.len() && #[trigger] option_key(o[j].key@) == 5 ==> unsigned_value(o[j].value) == r.alignment
    &&& has_text(o, 6, r.compression@)
}

/// The field an option key names (see `option_key`).
pub fn key_index(k: &String) -> (r: i8)
    ensures
        r == option_key(k@),
{
    let s = k.as_str();
    if str_eq(s, "fat_path") {
        0
    } else if str_eq(s, "fat_entry_hash") {
        1
    } else if str_eq(s, "base_dat_sha256") {
        2
    } else if str_eq(s, "base_fat_sha256") {
        3
    } else if str_eq(s, "payload_sha256") {
        4
    } else if str_eq(s, "alignment") {
        5
    } else if str_eq(s, "compression") {
        6
    } else {
        -1
    }
}

/// Read the options object of an `APPEND_FAT_DAT` action. Unknown, repeated,
/// missing or mistyped fields are refused as `Json`.
pub fn parse_options(o: &Vec<ActionOption>) -> (r: Result<Options, LoaderError>)
    ensures
        r is Ok <==> options_shape_ok(o@),
        r matches Ok(x) ==> options_from(o@, x),
        r matches Err(e) ==> e is Json,
{
    let mut texts: Vec<Option<String>> = vec![None, None, None, None, None, None, None];
    let mut align: Option<u64> = None;
    let mut j: usize = 0;
    while j < o.len()
        invariant
            j <= o@.len(),
            texts@.len() == 7,
            forall|a: int|
                0 <= a < j ==> 0 <= #[trigger] option_key(o@[a].key@) < 7 && value_fits(
                    option_key(o@[a].key@),
                    o@[a].value,
                ),
            forall|a: int, b: int|
                0 <= a < b < j ==> #[trigger] option_key(o@[a].key@) != #[trigger] option_key(
                    o@[b].key@,
                ),
            forall|k: int|
                0 <= k < 7 && k != 5 ==> (texts@[k] is None <==> forall|a: int|
                    0 <= a < j ==> #[trigger] option_key(o@[a].key@) != k),
            forall|a: int|
                0 <= a < j && #[trigger] option_key(o@[a].key@) != 5 ==> (texts@[option_key(
                    o@[a].key@,
                )] matches Some(t) && t@ == text_value(o@[a].value)),
            align is None <==> forall|a: int| 0 <= a < j ==> #[trigger] option_key(o@[a].key@) != 5,
            forall|a: int|
                0 <= a < j && #[trigger] option_key(o@[a].key@) == 5 ==> align == Some(
                    unsigned_value(o@[a].value),
                ),
        decreases o@.len() - j,
    {
        let k = key_index(&o[j].key);
        if k < 0 {
            return Err(LoaderError::Json("unknown field".to_owned()));
        }
        let ku = k as usize;
        if ku == 5 {
            if align.is_some() {
                return Err(LoaderError::Json("duplicate field `alignment`".to_owned()));
            }
            match &o[j].value {
                OptionValue::Unsigned(n) => {
                    align = Some(*n);
                },
                _ => {
                    return Err(LoaderError::Json("invalid type for `alignment`".to_owned()));
                },
            }
        } else {
            if texts[ku].is_some() {
                return Err(LoaderError::Json("duplicate field".to_owned()));
            }
            match &o[j].value {
                OptionValue::Text(t) => {
                    texts.set(ku, Some(t.clone()));
                },
                _ => {
                    return Err(LoaderError::Json("invalid type: expected a string".to_owned()));
                },
            }
        }
        j = j + 1;
    }
    if align.is_none() || texts[0].is_none() || texts[1].is_none() || texts[2].is_none()
        || texts[3].is_none() || texts[4].is_none() || texts[6].is_none() {
        proof {
            if align is None {
                assert(!key_present(o@, 5));
            } else {
                let m: int = if texts@[0] is None {
                    0
                } else if texts@[1] is None {
                    1
                } else if texts@[2] is None {
                    2
                } else if texts@[3] is None {
                    3
                } else if texts@[4] is None {
                    4
                } else {
                    6
                };
                assert(!key_present(o@, m));
            }
        }
        return Err(LoaderError::Json("missing field".to_owned()));
    }
    let fat_path = take_text(&texts, 0);
    let fat_entry_hash = take_text(&texts, 1);
    let base_dat_sha256 = take_text(&texts, 2);
    let base_fat_sha256 = take_text(&texts, 3);
    let payload_sha256 = take_text(&texts, 4);
    let compression = take_text(&texts, 6);
    let alignment = match align {
        Some(n) => n,
        None => 0,
    };
    proof {
        assert forall|m: int| 0 <= m < 7 implies #[trigger] key_present(o@, m) by {
            if m == 5 {
                assert(align is Some);
            } else {
                assert(texts@[m] is Some);
            }
        }
    }
    Ok(
        Options {
            fat_path,
            fat_entry_hash,
            base_dat_sha256,
            base_fat_sha256,
            payload_sha256,
            alignment,
            compression,
        },
    )
}

fn take_text(texts: &Vec<Option<String>>, k: usize) -> (r: String)
    requires
        k < texts@.len(),
        texts@[k as int] is Some,
    ensures
        texts@[k as int] == Some(r),
{
    match &texts[k] {
        Some(t) => t.clone(),
        None => String::new(),
    }
}

} // verus!

verus! {

/// The text held by field `k` of the options object.
pub open spec fn field_text(o: Seq<ActionOption>, k: int) -> Seq<char> {
    text_value(o[choose|j: int| 0 <= j < o.len() && #[trigger] option_key(o[j].key@) == k].value)
}

/// The number held by field `k` of the options object.
pub open spec fn field_num(o: Seq<ActionOption>, k: int) -> u64 {
    unsigned_value(o[choose|j: int| 0 <= j < o.len() && #[trigger] option_key(o[j].key@) == k].value)
}

/// A portable relative path of the archive pair: no `:`, `\` or NUL, and
/// every `/`-separated segment is non-empty and ends neither in a space nor
/// in a dot (so there is no root, no `.` and no `..`).
pub open spec fn fat_relative_ok(s: Seq<char>) -> bool {
    &&& forall|i: int| 0 <= i < s.len() ==> s[i] != ':' && s[i] != '\\' && s[i] != '\0'
    &&& forall|k: int|
        0 <= k < split_char(s, '/').len() ==> segment_ok(#[trigger] split_char(s, '/')[k])
}

/// A path segment that is non-empty and ends in neither a space nor a dot.
pub open spec fn segment_ok(p: Seq<char>) -> bool {
    p.len() > 0 && p.last() != ' ' && p.last() != '.'
}

/// `n` hexadecimal digits.
pub open spec fn is_hex_of(s: Seq<char>, n: int) -> bool {
    s.len() == n && forall|i: int| 0 <= i < s.len() ==> is_hex_digit(#[trigger] s[i])
}

/// The path `d` with its `.dat` extension replaced by `.fat` (as
/// `Path::with_extension`; a file named just `.dat` has no extension).
pub open spec fn with_fat_ext(d: Seq<char>) -> Seq<char> {
    if d == ".dat"@ || ends_with(d, "/.dat"@) {
        d + ".fat"@
    } else {
        d.take(d.len() - 4) + ".fat"@
    }
}

/// The DAT and FAT paths name a matching pair.
pub open spec fn fat_pair_ok(dat: Seq<char>, fat: Seq<char>) -> bool {
    ends_with(dat, ".dat"@) && ends_with(fat, ".fat"@) && fat == with_fat_ext(dat)
}

/// The text of an optional source path (empty when absent).
pub open spec fn source_text(s: Option<String>) -> Seq<char> {
    match s {
        Some(t) => t@,
        None => Seq::<char>::empty(),
    }
}

/// The checks an `APPEND_FAT_DAT` action's paths and options must pass.
pub open spec fn fat_checks(
    dat: Seq<char>,
    source: Seq<char>,
    backup: bool,
    fat: Seq<char>,
    entry: Seq<char>,
    dat_sha: Seq<char>,
    fat_sha: Seq<char>,
    payload_sha: Seq<char>,
    alignment: u64,
    compression: Seq<char>,
) -> bool {
    &&& fat_relative_ok(dat)
    &&& fat_relative_ok(fat)
    &&& fat_relative_ok(source)
    &&& backup && alignment == 8 && compression == "none"@
    &&& fat_pair_ok(dat, fat)
    &&& is_hex_of(entry, 16)
    &&& is_hex_of(dat_sha, 64)
    &&& is_hex_of(fat_sha, 64)
    &&& is_hex_of(payload_sha, 64)
}

/// The message of the first of `fat_checks` that fails, in the order they
/// are made: paths, options, the DAT/FAT pair, then the hashes.
pub open spec fn fat_refusal_text(
    dat: Seq<char>,
    source: Seq<char>,
    backup: bool,
    fat: Seq<char>,
    alignment: u64,
    compression: Seq<char>,
) -> Seq<char> {
    if !(fat_relative_ok(dat) && fat_relative_ok(fat) && fat_relative_ok(source)) {
        "FAT/DAT yolu güvenli relative yol olmalıdır"@
    } else if !(backup && alignment == 8 && compression == "none"@) {
        "FAT/DAT seçenekleri geçersiz"@
    } else if !fat_pair_ok(dat, fat) {
        "Eşleşen DAT/FAT çifti gerekli"@
    } else {
        "FAT/DAT SHA-256 veya kayıt kimliği geçersiz"@
    }
}

/// The value of a hexadecimal digit.
pub open spec fn hex_val(c: char) -> int {
    if '0' <= c <= '9' {
        c as int - 48
    } else if 'a' <= c <= 'f' {
        c as int - 87
    } else {
        c as int - 55
    }
}

/// The number a string of hexadecimal digits denotes.
pub open spec fn hex_number(s: Seq<char>) -> int
    decreases s.len(),
{
    if s.len() == 0 {
        0
    } else {
        hex_number(s.drop_last()) * 16 + hex_val(s.last())
    }
}

/// Sixteen to the power `n`.
pub open spec fn pow16(n: nat) -> int
    decreases n,
{
    if n == 0 {
        1
    } else {
        16 * pow16((n - 1) as nat)
    }
}

proof fn lemma_pow16_le(a: nat, b: nat)
    requires
        a <= b,
    ensures
        1 <= pow16(a) <= pow16(b),
    decreases b,
{
    if b > a {
        lemma_pow16_le(a, (b - 1) as nat);
    } else if a > 0 {
        lemma_pow16_le((a - 1) as nat, (a - 1) as nat);
    }
}

/// Whether `s` is a relative path that the archive pair may use (see
/// `fat_relative_ok`).
pub fn fat_relative(s: &str) -> (r: bool)
    ensures
        r == fat_relative_ok(s@),
{
    let v = chars_of(s);
    let n = v.len();
    let mut i: usize = 0;
    while i < n
        invariant
            n == v@.len(),
            v@ == s@,
            i <= n,
            forall|j: int| 0 <= j < i ==> v@[j] != ':' && v@[j] != '\\' && v@[j] != '\0',
        decreases n - i,
    {
        if v[i] == ':' || v[i] == '\\' || v[i] == '\0' {
            return false;
        }
        i = i + 1;
    }
    proof {
        assert(v@.subrange(0, n as int) =~= v@);
    }
    let ranges = split_ranges(&v, 0, n, '/');
    let mut k: usize = 0;
    while k < ranges.len()
        invariant
            n == v@.len(),
            v@ == s@,
            v@.subrange(0, n as int) == v@,
            k <= ranges@.len(),
            ranges@.len() == split_char(v@, '/').len(),
            forall|m: int|
                0 <= m < ranges@.len() ==> 0 <= (#[trigger] ranges@[m]).0 <= ranges@[m].1 <= n
                    && v@.subrange(ranges@[m].0 as int, ranges@[m].1 as int) == split_char(
                    v@,
                    '/',
                )[m],
            forall|m: int| 0 <= m < k ==> segment_ok(#[trigger] split_char(v@, '/')[m]),
        decreases ranges@.len() - k,
    {
        let (a, b) = ranges[k];
        proof {
            assert(v@.subrange(a as int, b as int) == split_char(v@, '/')[k as int]);
        }
        if a == b || v[b - 1] == ' ' || v[b - 1] == '.' {
            proof {
                let p = split_char(v@, '/')[k as int];
                if a < b {
                    assert(p.last() == v@[b - 1]);
                }
                assert(!segment_ok(p));
            }
            return false;
        }
        proof {
            let p = split_char(v@, '/')[k as int];
            assert(p.last() == v@[b - 1]);
        }
        k = k + 1;
    }
    true
}

/// Whether `s` is exactly `n` hexadecimal digits.
pub fn is_hash(s: &str, n: usize) -> (r: bool)
    ensures
        r == is_hex_of(s@, n as int),
{
    let v = chars_of(s);
    if v.len() != n {
        return false;
    }
    let mut i: usize = 0;
    while i < v.len()
        invariant
            i <= v@.len(),
            v@ == s@,
            forall|j: int| 0 <= j < i ==> is_hex_digit(#[trigger] v@[j]),
        decreases v@.len() - i,
    {
        if !hex_digit(v[i]) {
            return false;
        }
        i = i + 1;
    }
    true
}

/// The number a string of sixteen hexadecimal digits denotes.
pub fn hex_u64(s: &str) -> (r: u64)
    requires
        is_hex_of(s@, 16),
    ensures
        r == hex_number(s@),
{
    let v = chars_of(s);
    let mut acc: u64 = 0;
    let mut i: usize = 0;
    proof {
        lemma_pow16_le(16, 16);
        assert(pow16(16) == 18446744073709551616) by {
            reveal_with_fuel(pow16, 17);
        }
    }
    while i < 16
        invariant
            v@ == s@,
            is_hex_of(v@, 16),
            i <= 16,
            acc == hex_number(v@.take(i as int)),
            0 <= acc < pow16(i as nat),
            pow16(16) == 18446744073709551616,
        decreases 16 - i,
    {
        let c = v[i];
        let d: u64 = if '0' <= c && c <= '9' {
            (c as u32 - 48) as u64
        } else if 'a' <= c && c <= 'f' {
            (c as u32 - 87) as u64
        } else {
            (c as u32 - 55) as u64
        };
        proof {
            assert(is_hex_digit(v@[i as int]));
            assert(0 <= d < 16);
            lemma_pow16_le((i + 1) as nat, 16);
            assert(pow16((i + 1) as nat) == 16 * pow16(i as nat));
            assert(v@.take(i + 1).drop_last() =~= v@.take(i as int));
        }
        acc = acc * 16 + d;
        i = i + 1;
    }
    proof {
        assert(v@.take(16) =~= v@);
    }
    acc
}

/// Whether `v` ends with `suffix`.
pub fn ends_with_chars(v: &Vec<char>, suffix: &Vec<char>) -> (r: bool)
    ensures
        r == ends_with(v@, suffix@),
{
    if suffix.len() > v.len() {
        return false;
    }
    let r = range_eq(v, v.len() - suffix.len(), v.len(), suffix);
    proof {
        assert(v@.subrange(v@.len() - suffix@.len(), v@.len() as int) =~= v@.skip(
            v@.len() - suffix@.len(),
        ));
    }
    r
}

/// Whether `dat` and `fat` name a matching archive pair (see `fat_pair_ok`).
pub fn pair_ok(dat: &str, fat: &str) -> (r: bool)
    ensures
        r == fat_pair_ok(dat@, fat@),
{
    let d = chars_of(dat);
    let f = chars_of(fat);
    let dat_ext = chars_of(".dat");
    let fat_ext = chars_of(".fat");
    let slash_dat = chars_of("/.dat");
    if !ends_with_chars(&d, &dat_ext) || !ends_with_chars(&f, &fat_ext) {
        return false;
    }
    proof {
        reveal_strlit(".dat");
    }
    let bare = d.len() == dat_ext.len() && range_eq(&d, 0, d.len(), &dat_ext);
    proof {
        assert(d@.subrange(0, d@.len() as int) =~= d@);
    }
    let expected = if bare || ends_with_chars(&d, &slash_dat) {
        concat(&d, &fat_ext)
    } else {
        let stem = slice_vec(&d, 0, d.len() - 4);
        concat(&stem, &fat_ext)
    };
    proof {
        assert(expected@.subrange(0, expected@.len() as int) =~= expected@);
    }
    let same = range_eq(&expected, 0, expected.len(), &f);
    same
}

proof fn lemma_field_text(o: Seq<ActionOption>, x: Options)
    requires
        options_shape_ok(o),
        options_from(o, x),
    ensures
        x.fat_path@ == field_text(o, 0),
        x.fat_entry_hash@ == field_text(o, 1),
        x.base_dat_sha256@ == field_text(o, 2),
        x.base_fat_sha256@ == field_text(o, 3),
        x.payload_sha256@ == field_text(o, 4),
        x.alignment == field_num(o, 5),
        x.compression@ == field_text(o, 6),
{
    assert(key_present(o, 0));
    assert(key_present(o, 1));
    assert(key_present(o, 2));
    assert(key_present(o, 3));
    assert(key_present(o, 4));
    assert(key_present(o, 5));
    assert(key_present(o, 6));
}

/// The options of an `APPEND_FAT_DAT` action, checked: the options object must
/// be exactly the seven fields (else `Json`), and the paths, policy and hashes
/// must pass `fat_checks` (else `Integrity`).
pub fn options(a: &Action) -> (r: Result<Options, LoaderError>)
    ensures
        r is Ok <==> options_shape_ok(a.options@) && fat_checks(
            a.destination@,
            source_text(a.source),
            a.backup,
            field_text(a.options@, 0),
            field_text(a.options@, 1),
            field_text(a.options@, 2),
            field_text(a.options@, 3),
            field_text(a.options@, 4),
            field_num(a.options@, 5),
            field_text(a.options@, 6),
        ),
        r matches Ok(x) ==> options_from(a.options@, x),
        r matches Err(e) ==> (e is Json <==> !options_shape_ok(a.options@)) && (e is Json
            || e is Integrity),
        options_shape_ok(a.options@) && r is Err ==> (r matches Err(LoaderError::Integrity(m)) && m@
            == fat_refusal_text(
            a.destination@,
            source_text(a.source),
            a.backup,
            field_text(a.options@, 0),
            field_num(a.options@, 5),
            field_text(a.options@, 6),
        )),
{
    let o = parse_options(&a.options)?;
    proof {
        lemma_field_text(a.options@, o);
    }
    let src: &str = match &a.source {
        Some(s) => s.as_str(),
        None => "",
    };
    proof {
        if a.source is None {
            reveal_strlit("");
            assert(src@ =~= source_text(a.source));
        }
    }
    assert(src@ == source_text(a.source));
    if !fat_relative(a.destination.as_str()) || !fat_relative(o.fat_path.as_str())
        || !fat_relative(src) {
        return Err(LoaderError::Integrity("FAT/DAT yolu güvenli relative yol olmalıdır".to_owned()));
    }
    if !(a.backup && o.alignment == 8 && str_eq(o.compression.as_str(), "none")) {
        return Err(LoaderError::Integrity("FAT/DAT seçenekleri geçersiz".to_owned()));
    }
    if !pair_ok(a.destination.as_str(), o.fat_path.as_str()) {
        return Err(LoaderError::Integrity("Eşleşen DAT/FAT çifti gerekli".to_owned()));
    }
    if !(is_hash(o.fat_entry_hash.as_str(), 16) && is_hash(o.base_dat_sha256.as_str(), 64)
        && is_hash(o.base_fat_sha256.as_str(), 64) && is_hash(o.payload_sha256.as_str(), 64)) {
        return Err(
            LoaderError::Integrity("FAT/DAT SHA-256 veya kayıt kimliği geçersiz".to_owned()),
        );
    }
    Ok(o)
}

} // verus!

verus! {

/// What an append writes: the record it repoints, where the payload starts in
/// the DAT, the zero padding in front of it and the updated FAT table.
pub struct AppendPlan {
    pub target: u64,
    pub record: usize,
    pub offset: u64,
    pub pad_len: u64,
    pub updated_fat: Vec<u8>,
    /// The hexadecimal SHA-256 the DAT will have once the append is written.
    pub final_dat_hash: String,
}

/// `n` rounded up to a multiple of eight.
pub open spec fn round8(n: int) -> int {
    ((n + 7) / 8) * 8
}

/// The index of the record whose hash is `target`.
pub open spec fn target_record(f: Seq<u8>, target: int) -> int {
    choose|i: int| 0 <= i < record_count(f) && record_hash(f, i) == target
}

/// `f` with the record at `p` describing an uncompressed entry of `size`
/// bytes at DAT block `block` (offset `8 * block`).
pub open spec fn patched_fat(f: Seq<u8>, p: int, size: int, block: int) -> Seq<u8> {
    f.take(p + 8) + le_bytes((size * 4) as u32) + le_bytes(block as u32) + le_bytes(size as u32)
        + f.skip(p + 20)
}

proof fn lemma_target_unique(f: Seq<u8>, dat_len: int, target: int, i: int)
    requires
        fat_ok(f, dat_len, target),
        0 <= i < record_count(f),
        record_hash(f, i) == target,
    ensures
        i == target_record(f, target),
{
    let t = target_record(f, target);
    if i < t {
        assert(record_hash(f, t) != target);
    } else if t < i {
        assert(record_hash(f, i) != target);
    }
}

/// A size limit of the bytes read from a file: `len` must not exceed `limit`
/// (else `Integrity`).
pub fn within_limit(len: u64, limit: u64) -> (r: Result<(), LoaderError>)
    ensures
        r is Ok <==> len <= limit,
        r matches Err(e) ==> (e matches LoaderError::Integrity(m) && m@ == "FAT/DAT dosya boyutu sınırı aşıldı"@),
{
    if len <= limit {
        Ok(())
    } else {
        Err(LoaderError::Integrity("FAT/DAT dosya boyutu sınırı aşıldı".to_owned()))
    }
}

/// The patch payload must be non-empty, at most `MAX_PAYLOAD` bytes and
/// hash to the manifest's `payload_sha256` (else `Integrity`).
pub fn check_payload(o: &Options, payload: &[u8]) -> (r: Result<(), LoaderError>)
    ensures
        r is Ok <==> payload@.len() <= MAX_PAYLOAD && payload@.len() > 0 && eq_ignore_case(
            digest_hex(payload@),
            o.payload_sha256@,
        ),
        r matches Err(e) ==> (e matches LoaderError::Integrity(m) && m@ == if payload@.len() > MAX_PAYLOAD {
            "FAT/DAT dosya boyutu sınırı aşıldı"@
        } else {
            "Çeviri SHA-256 uyuşmuyor"@
        }),
{
    within_limit(payload.len() as u64, MAX_PAYLOAD)?;
    if payload.len() == 0 || !str_eq_ignore_case(digest(payload).as_str(), o.payload_sha256.as_str()) {
        return Err(LoaderError::Integrity("Çeviri SHA-256 uyuşmuyor".to_owned()));
    }
    Ok(())
}

/// The game's FAT must be at most `MAX_FAT` bytes and hash to the manifest's
/// `base_fat_sha256` (else `Integrity`).
pub fn check_base_fat(o: &Options, fat: &[u8]) -> (r: Result<(), LoaderError>)
    ensures
        r is Ok <==> fat@.len() <= MAX_FAT && eq_ignore_case(digest_hex(fat@), o.base_fat_sha256@),
        r matches Err(e) ==> (e matches LoaderError::Integrity(m) && m@ == if fat@.len() > MAX_FAT {
            "FAT/DAT dosya boyutu sınırı aşıldı"@
        } else {
            "Oyun FAT sürümü bu yamayla uyumlu değil"@
        }),
{
    within_limit(fat.len() as u64, MAX_FAT)?;
    if !str_eq_ignore_case(digest(fat).as_str(), o.base_fat_sha256.as_str()) {
        return Err(LoaderError::Integrity("Oyun FAT sürümü bu yamayla uyumlu değil".to_owned()));
    }
    Ok(())
}

/// `n` zero bytes.
pub fn zero_bytes(n: usize) -> (r: Vec<u8>)
    ensures
        r@ == Seq::new(n as nat, |i: int| 0u8),
{
    let mut r: Vec<u8> = Vec::new();
    let mut k: usize = 0;
    while k < n
        invariant
            k <= n,
            r@ == Seq::new(k as nat, |i: int| 0u8),
        decreases n - k,
    {
        r.push(0u8);
        k = k + 1;
        assert(r@ =~= Seq::new(k as nat, |i: int| 0u8));
    }
    r
}

/// Plan the append of `payload` to a DAT of `dat_len` bytes, given a hasher
/// `dat` fed the DAT's bytes. The record id must be 16 hexadecimal digits and
/// the payload within `MAX_PAYLOAD`; the DAT must be the manifest's base version, the FAT must hold
/// the target record (see `fat_ok`), the payload starts at the next multiple
/// of eight, and the updated table must again be a valid table for the grown
/// DAT. Every refusal is `Integrity`. In the updated table the target record
/// points exactly at the appended payload, and the plan carries the hash the
/// DAT will have after the append: that of its bytes, the zero padding and
/// the payload.
#[verifier::spinoff_prover]
#[verifier::rlimit(40)]
pub fn plan_append(o: &Options, payload: &[u8], fat: &[u8], dat_len: u64, dat: Sha256State) -> (r:
    Result<AppendPlan, LoaderError>)
    ensures
        ({
            let target = hex_number(o.fat_entry_hash@);
            let offset = round8(dat_len as int);
            let pos = record_pos(target_record(fat@, target));
            r is Ok <==> {
                &&& is_hex_of(o.fat_entry_hash@, 16)
                &&& payload@.len() <= MAX_PAYLOAD
                &&& eq_ignore_case(digest_hex(dat.fed()), o.base_dat_sha256@)
                &&& fat_ok(fat@, dat_len as int, target)
                &&& dat_len + 7 <= u64::MAX
                &&& offset / 8 <= u32::MAX
                &&& fat_ok(
                    patched_fat(fat@, pos, payload@.len() as int, offset / 8),
                    offset + payload@.len(),
                    target,
                )
            }
        }),
        r matches Ok(plan) ==> {
            let target = hex_number(o.fat_entry_hash@);
            let i = target_record(fat@, target);
            &&& plan.target == target
            &&& plan.offset == round8(dat_len as int)
            &&& plan.offset % 8 == 0
            &&& dat_len <= plan.offset < dat_len + 8
            &&& plan.pad_len == plan.offset - dat_len
            &&& plan.record == record_pos(i)
            &&& plan.updated_fat@ == patched_fat(
                fat@,
                plan.record as int,
                payload@.len() as int,
                plan.offset as int / 8,
            )
            &&& record_hash(plan.updated_fat@, i) == target
            &&& record_offset(plan.updated_fat@, i) == plan.offset
            &&& record_size(plan.updated_fat@, i) == payload@.len()
            &&& plan.final_dat_hash@ == digest_hex(
                dat.fed() + append_bytes(plan.pad_len as int, payload@),
            )
        },
        r matches Err(e) ==> ({
            let target = hex_number(o.fat_entry_hash@);
            let offset = round8(dat_len as int);
            let pos = record_pos(target_record(fat@, target));
            e matches LoaderError::Integrity(m) && m@ == if !is_hex_of(o.fat_entry_hash@, 16) {
                "FAT/DAT SHA-256 veya kayıt kimliği geçersiz"@
            } else if payload@.len() > MAX_PAYLOAD {
                "FAT/DAT dosya boyutu sınırı aşıldı"@
            } else if !eq_ignore_case(digest_hex(dat.fed()), o.base_dat_sha256@) {
                "Oyun DAT sürümü bu yamayla uyumlu değil"@
            } else if !fat_ok(fat@, dat_len as int, target) {
                parse_refusal_text(fat@, dat_len as int, target)
            } else if dat_len + 7 > u64::MAX {
                "DAT boyut taşması"@
            } else if offset / 8 > u32::MAX {
                "DAT offset kapasitesi aşıldı"@
            } else {
                parse_refusal_text(
                    patched_fat(fat@, pos, payload@.len() as int, offset / 8),
                    offset + payload@.len(),
                    target,
                )
            }
        }),
{
    if !is_hash(o.fat_entry_hash.as_str(), 16) {
        return Err(
            LoaderError::Integrity("FAT/DAT SHA-256 veya kayıt kimliği geçersiz".to_owned()),
        );
    }
    within_limit(payload.len() as u64, MAX_PAYLOAD)?;
    let mut grown = dat.fork();
    let dat_hex = dat.finish_hex();
    if !str_eq_ignore_case(dat_hex.as_str(), o.base_dat_sha256.as_str()) {
        return Err(LoaderError::Integrity("Oyun DAT sürümü bu yamayla uyumlu değil".to_owned()));
    }
    let target = hex_u64(o.fat_entry_hash.as_str());
    let record = parse(fat, dat_len, target)?;
    let ghost i = choose|i: int|
        0 <= i < record_count(fat@) && record == record_pos(i) && record_hash(fat@, i) == target;
    proof {
        lemma_target_unique(fat@, dat_len as int, target as int, i);
    }
    if dat_len > u64::MAX - 7 {
        return Err(LoaderError::Integrity("DAT boyut taşması".to_owned()));
    }
    let offset = ((dat_len + 7) / 8) * 8;
    if offset / 8 > 4294967295 {
        return Err(LoaderError::Integrity("DAT offset kapasitesi aşıldı".to_owned()));
    }
    let size = payload.len() as u32;
    let block = (offset / 8) as u32;
    let mut updated = vstd::slice::slice_to_vec(fat);
    let ghost f0 = updated@;
    let _n = updated.len();
    put(&mut updated, record + 8, size * 4);
    let ghost f1 = updated@;
    put(&mut updated, record + 12, block);
    let ghost f2 = updated@;
    put(&mut updated, record + 16, size);
    proof {
        let p = record as int;
        let f3 = updated@;
        assert(f3 =~= patched_fat(fat@, p, payload@.len() as int, offset as int / 8)) by {
            assert(f3.subrange(p + 8, p + 12) =~= f2.subrange(p + 8, p + 12));
            assert(f2.subrange(p + 8, p + 12) =~= f1.subrange(p + 8, p + 12));
            assert(f3.subrange(p + 12, p + 16) =~= f2.subrange(p + 12, p + 16));
        }
        assert(le32(f3, p + 8) == le32(f1, p + 8));
        assert(le32(f3, p + 12) == le32(f2, p + 12));
        assert(le32(f3, p) == le32(fat@, p));
        assert(le32(f3, p + 4) == le32(fat@, p + 4));
        assert(size < 536870912);
        assert((size * 4) as int % 4 == 0);
    }
    let payload_len = payload.len() as u64;
    parse(updated.as_slice(), offset + payload_len, target)?;
    let pad_len = offset - dat_len;
    let zeros = zero_bytes(pad_len as usize);
    grown.update(zeros.as_slice());
    grown.update(payload);
    proof {
        assert(zeros@ + payload@ =~= append_bytes(pad_len as int, payload@));
        assert(grown.fed() =~= dat.fed() + append_bytes(pad_len as int, payload@));
    }
    let final_dat_hash = grown.finish_hex();
    Ok(AppendPlan { target, record, offset, pad_len, updated_fat: updated, final_dat_hash })
}

} // verus!

verus! {

/// The durable undo record of an append, written before any game file changes.
pub struct Undo {
    pub process_name: Option<String>,
    pub dat: String,
    pub fat: String,
    pub original_len: u64,
    pub offset: u64,
    pub target: u64,
    pub original_dat_hash: String,
    pub original_fat_hash: String,
    pub final_dat_hash: String,
    pub final_fat_hash: String,
    pub payload_hash: String,
    pub original_fat_file: String,
    pub payload_file: String,
}

/// The optional text of an optional string.
pub open spec fn opt_text(s: Option<String>) -> Option<Seq<char>> {
    match s {
        Some(t) => Some(t@),
        None => None,
    }
}

/// When the manifest expects a final DAT hash, the planned one must match it
/// up to case (else `Integrity`).
pub fn check_final_hash(expected: &Option<String>, final_hash: &str) -> (r: Result<(), LoaderError>)
    ensures
        r is Ok <==> (expected matches Some(e) ==> eq_ignore_case(final_hash@, e@)),
        r matches Err(e) ==> (e matches LoaderError::Integrity(m) && m@ == "Beklenen final DAT SHA-256 uyuşmuyor"@),
{
    if let Some(e) = expected {
        if !str_eq_ignore_case(final_hash, e.as_str()) {
            return Err(
                LoaderError::Integrity("Beklenen final DAT SHA-256 uyuşmuyor".to_owned()),
            );
        }
    }
    Ok(())
}

/// The undo record of a planned append: the DAT length before the append, the
/// planned offset and record, the manifest's base hashes, the final DAT hash,
/// the hash of the updated FAT and the backup files holding the original FAT
/// and the payload.
pub fn make_undo(
    a: &Action,
    o: &Options,
    plan: &AppendPlan,
    dat_len: u64,
    process_name: Option<&str>,
) -> (u: Undo)
    ensures
        u.dat@ == a.destination@,
        u.fat@ == o.fat_path@,
        u.original_len == dat_len,
        u.offset == plan.offset,
        u.target == plan.target,
        u.original_dat_hash@ == o.base_dat_sha256@,
        u.original_fat_hash@ == o.base_fat_sha256@,
        u.final_dat_hash@ == plan.final_dat_hash@,
        u.final_fat_hash@ == digest_hex(plan.updated_fat@),
        u.payload_hash@ == o.payload_sha256@,
        u.original_fat_file@ == "files/fat-original.bin"@,
        u.payload_file@ == "files/fat-payload.bin"@,
        opt_text(u.process_name) == (match process_name {
            Some(n) => Some(n@),
            None => None,
        }),
{
    let process = match process_name {
        Some(n) => Some(n.to_owned()),
        None => None,
    };
    Undo {
        process_name: process,
        dat: a.destination.clone(),
        fat: o.fat_path.clone(),
        original_len: dat_len,
        offset: plan.offset,
        target: plan.target,
        original_dat_hash: o.base_dat_sha256.clone(),
        original_fat_hash: o.base_fat_sha256.clone(),
        final_dat_hash: plan.final_dat_hash.clone(),
        final_fat_hash: digest(plan.updated_fat.as_slice()),
        payload_hash: o.payload_sha256.clone(),
        original_fat_file: "files/fat-original.bin".to_owned(),
        payload_file: "files/fat-payload.bin".to_owned(),
    }
}

/// The journal record of an append: the DAT, its FAT, the undo record's file
/// and the DAT hashes before and after (the planned one).
pub fn patched_record(a: &Action, o: &Options, plan: &AppendPlan) -> (c: ChangeRecord)
    ensures
        c.kind == ChangeKind::PatchedArchive,
        c.path@ == a.destination@,
        opt_text(c.secondary_path) == Some(o.fat_path@),
        opt_text(c.backup_path) == Some("fat-dat-undo.json"@),
        opt_text(c.original_sha256) == Some(o.base_dat_sha256@),
        opt_text(c.installed_sha256) == Some(plan.final_dat_hash@),
{
    ChangeRecord {
        kind: ChangeKind::PatchedArchive,
        path: a.destination.clone(),
        secondary_path: Some(o.fat_path.clone()),
        backup_path: Some("fat-dat-undo.json".to_owned()),
        original_sha256: Some(o.base_dat_sha256.clone()),
        installed_sha256: Some(plan.final_dat_hash.clone()),
    }
}

/// Whether two byte sequences are equal.
pub fn bytes_eq(a: &[u8], b: &[u8]) -> (r: bool)
    ensures
        r == (a@ == b@),
{
    if a.len() != b.len() {
        return false;
    }
    let mut i: usize = 0;
    while i < a.len()
        invariant
            a@.len() == b@.len(),
            i <= a@.len(),
            forall|j: int| 0 <= j < i ==> a@[j] == #[trigger] b@[j],
        decreases a@.len() - i,
    {
        if a[i] != b[i] {
            return false;
        }
        i = i + 1;
    }
    assert(a@ =~= b@);
    true
}

/// The payload read back from the DAT must equal the payload (else `Integrity`).
pub fn check_readback(extracted: &[u8], payload: &[u8]) -> (r: Result<(), LoaderError>)
    ensures
        r is Ok <==> extracted@ == payload@,
        r matches Err(e) ==> (e matches LoaderError::Integrity(m) && m@ == "DAT içinden tekrar okunan çeviri farklı"@),
{
    if bytes_eq(extracted, payload) {
        Ok(())
    } else {
        Err(LoaderError::Integrity("DAT içinden tekrar okunan çeviri farklı".to_owned()))
    }
}

/// The grown DAT must hash to the undo record's final hash (else `Integrity`).
pub fn check_final_dat(u: &Undo, dat: Sha256State) -> (r: Result<(), LoaderError>)
    ensures
        r is Ok <==> digest_hex(dat.fed()) == u.final_dat_hash@,
        r matches Err(e) ==> (e matches LoaderError::Integrity(m) && m@ == "Final DAT doğrulanamadı"@),
{
    let dat_text = dat.finish_hex();
    let dat_hex = dat_text.as_str();
    if str_eq(dat_hex, u.final_dat_hash.as_str()) {
        Ok(())
    } else {
        Err(LoaderError::Integrity("Final DAT doğrulanamadı".to_owned()))
    }
}

/// Before the FAT is swapped it must still be the original (else `Integrity`).
pub fn check_fat_unchanged(u: &Undo, fat: Sha256State) -> (r: Result<(), LoaderError>)
    ensures
        r is Ok <==> eq_ignore_case(digest_hex(fat.fed()), u.original_fat_hash@),
        r matches Err(e) ==> (e matches LoaderError::Integrity(m) && m@ == "FAT işlem sırasında değişti"@),
{
    let fat_text = fat.finish_hex();
    let fat_hex = fat_text.as_str();
    if str_eq_ignore_case(fat_hex, u.original_fat_hash.as_str()) {
        Ok(())
    } else {
        Err(LoaderError::Integrity("FAT işlem sırasında değişti".to_owned()))
    }
}

/// The FAT read back after the swap must equal the updated table (else `Integrity`).
pub fn check_final_fat(updated: &[u8], reread: &[u8]) -> (r: Result<(), LoaderError>)
    ensures
        r is Ok <==> reread@ == updated@,
        r matches Err(e) ==> (e matches LoaderError::Integrity(m) && m@ == "Final FAT doğrulanamadı"@),
{
    if bytes_eq(reread, updated) {
        Ok(())
    } else {
        Err(LoaderError::Integrity("Final FAT doğrulanamadı".to_owned()))
    }
}

/// Where the undo record of a journal record lies in the backup (else `Integrity`).
pub fn undo_location(change: &ChangeRecord) -> (r: Result<String, LoaderError>)
    ensures
        r is Ok <==> change.backup_path is Some,
        r matches Ok(p) ==> Some(p@) == opt_text(change.backup_path),
        r matches Err(e) ==> (e matches LoaderError::Integrity(m) && m@ == "FAT/DAT yedek kaydı eksik"@),
{
    match &change.backup_path {
        Some(p) => Ok(p.clone()),
        None => Err(LoaderError::Integrity("FAT/DAT yedek kaydı eksik".to_owned())),
    }
}

/// Whether an optional string holds exactly `t`.
fn opt_is(s: &Option<String>, t: &String) -> (r: bool)
    ensures
        r == (opt_text(*s) == Some(t@)),
{
    match s {
        Some(x) => str_eq(x.as_str(), t.as_str()),
        None => false,
    }
}

/// The undo record must belong to the journal record: same DAT, FAT and DAT
/// hashes before and after (else `Integrity`).
pub fn undo_matches(u: &Undo, change: &ChangeRecord) -> (r: Result<(), LoaderError>)
    ensures
        r is Ok <==> {
            &&& u.dat@ == change.path@
            &&& opt_text(change.secondary_path) == Some(u.fat@)
            &&& opt_text(change.original_sha256) == Some(u.original_dat_hash@)
            &&& opt_text(change.installed_sha256) == Some(u.final_dat_hash@)
        },
        r matches Err(e) ==> (e matches LoaderError::Integrity(m) && m@ == "FAT/DAT yedek kimliği farklı"@),
{
    if str_eq(u.dat.as_str(), change.path.as_str()) && opt_is(&change.secondary_path, &u.fat)
        && opt_is(&change.original_sha256, &u.original_dat_hash) && opt_is(
        &change.installed_sha256,
        &u.final_dat_hash,
    ) {
        Ok(())
    } else {
        Err(LoaderError::Integrity("FAT/DAT yedek kimliği farklı".to_owned()))
    }
}

/// The bytes an append writes after the original DAT: `pad` zero bytes, then
/// the payload.
pub open spec fn append_bytes(pad: int, payload: Seq<u8>) -> Seq<u8> {
    Seq::new(pad as nat, |i: int| 0u8) + payload
}

/// A DAT tail that an interrupted or completed append can have left: a prefix
/// of the padding and payload.
pub open spec fn suffix_restorable(pad: int, payload: Seq<u8>, suffix: Seq<u8>) -> bool {
    suffix.len() <= pad + payload.len() && suffix == append_bytes(pad, payload).take(
        suffix.len() as int,
    )
}

/// The checks before a restore touches anything: the backed-up FAT and
/// payload are intact, the recorded offset is the aligned end of the original
/// DAT, the original FAT holds the target record, the current FAT is either
/// the original or the installed one, and the DAT is no shorter than the
/// original and no longer than a completed append. Refusals are `Integrity`;
/// the result says whether the FAT must be put back.
pub fn restore_check(
    u: &Undo,
    original: &[u8],
    payload: &[u8],
    current_fat: Sha256State,
    dat_len: u64,
) -> (r: Result<bool, LoaderError>)
    ensures
        r is Ok <==> {
            &&& eq_ignore_case(digest_hex(original@), u.original_fat_hash@)
            &&& eq_ignore_case(digest_hex(payload@), u.payload_hash@)
            &&& u.original_len <= u.offset
            &&& u.offset - u.original_len < 8
            &&& u.offset % 8 == 0
            &&& fat_ok(original@, u.original_len as int, u.target as int)
            &&& eq_ignore_case(digest_hex(current_fat.fed()), u.original_fat_hash@) || eq_ignore_case(
                digest_hex(current_fat.fed()),
                u.final_fat_hash@,
            )
            &&& u.original_len <= dat_len <= u.offset + payload@.len()
        },
        r matches Ok(replace) ==> replace == !eq_ignore_case(digest_hex(current_fat.fed()), u.original_fat_hash@),
        r matches Err(e) ==> (e matches LoaderError::Integrity(m) && m@ == if !(eq_ignore_case(
            digest_hex(original@),
            u.original_fat_hash@,
        ) && eq_ignore_case(digest_hex(payload@), u.payload_hash@)) {
            "FAT/DAT yedeği bozuk"@
        } else if !(u.original_len <= u.offset && u.offset - u.original_len < 8 && u.offset % 8
            == 0) {
            "Geri alma uzunluğu geçersiz"@
        } else if !fat_ok(original@, u.original_len as int, u.target as int) {
            parse_refusal_text(original@, u.original_len as int, u.target as int)
        } else if !(eq_ignore_case(digest_hex(current_fat.fed()), u.original_fat_hash@) || eq_ignore_case(
            digest_hex(current_fat.fed()),
            u.final_fat_hash@,
        )) {
            "FAT sonradan değişmiş; geri alma durduruldu"@
        } else {
            "DAT uzunluğu sonradan değişmiş"@
        }),
{
    let current_fat_text = current_fat.finish_hex();
    let current_fat_hex = current_fat_text.as_str();
    if !(str_eq_ignore_case(digest(original).as_str(), u.original_fat_hash.as_str())
        && str_eq_ignore_case(digest(payload).as_str(), u.payload_hash.as_str())) {
        return Err(LoaderError::Integrity("FAT/DAT yedeği bozuk".to_owned()));
    }
    if !(u.offset >= u.original_len && u.offset - u.original_len < 8 && u.offset % 8 == 0) {
        return Err(LoaderError::Integrity("Geri alma uzunluğu geçersiz".to_owned()));
    }
    parse(original, u.original_len, u.target)?;
    let is_original = str_eq_ignore_case(current_fat_hex, u.original_fat_hash.as_str());
    if !(is_original || str_eq_ignore_case(current_fat_hex, u.final_fat_hash.as_str())) {
        return Err(
            LoaderError::Integrity("FAT sonradan değişmiş; geri alma durduruldu".to_owned()),
        );
    }
    let longest = (u.offset as u128) + (payload.len() as u128);
    if !(dat_len >= u.original_len && (dat_len as u128) <= longest) {
        return Err(LoaderError::Integrity("DAT uzunluğu sonradan değişmiş".to_owned()));
    }
    Ok(!is_original)
}

/// The checks of the DAT before it is cut back: its original region still
/// hashes to the original DAT hash, and its tail is a prefix of the bytes the
/// append writes (so no user data is cut off). Refusals are `Integrity`.
pub fn restore_suffix_check(u: &Undo, payload: &[u8], dat: Sha256State, suffix: &[u8]) -> (r:
    Result<(), LoaderError>)
    requires
        u.original_len <= u.offset,
        suffix@.len() <= (u.offset - u.original_len) + payload@.len(),
    ensures
        r is Ok <==> eq_ignore_case(digest_hex(dat.fed()), u.original_dat_hash@) && suffix_restorable(
            u.offset - u.original_len,
            payload@,
            suffix@,
        ),
        r matches Err(e) ==> (e matches LoaderError::Integrity(m) && m@ == if !eq_ignore_case(
            digest_hex(dat.fed()),
            u.original_dat_hash@,
        ) {
            "Orijinal DAT bölgesi değişmiş; geri alma durduruldu"@
        } else {
            "DAT sonuna farklı veri eklenmiş; geri alma durduruldu"@
        }),
{
    let dat_text = dat.finish_hex();
    let dat_hex = dat_text.as_str();
    if !str_eq_ignore_case(dat_hex, u.original_dat_hash.as_str()) {
        return Err(
            LoaderError::Integrity(
                "Orijinal DAT bölgesi değişmiş; geri alma durduruldu".to_owned(),
            ),
        );
    }
    let pad = u.offset - u.original_len;
    let ghost expected = append_bytes(pad as int, payload@);
    let mut k: usize = 0;
    while k < suffix.len()
        invariant
            pad == u.offset - u.original_len,
            eq_ignore_case(digest_hex(dat.fed()), u.original_dat_hash@),
            expected == append_bytes(pad as int, payload@),
            suffix@.len() <= pad + payload@.len(),
            k <= suffix@.len(),
            forall|j: int| 0 <= j < k ==> suffix@[j] == #[trigger] expected[j],
        decreases suffix@.len() - k,
    {
        let want: u8 = if (k as u64) < pad {
            0
        } else {
            payload[k - pad as usize]
        };
        proof {
            assert(want == expected[k as int]);
        }
        if suffix[k] != want {
            proof {
                assert(expected.take(suffix@.len() as int)[k as int] == expected[k as int]);
            }
            return Err(
                LoaderError::Integrity(
                    "DAT sonuna farklı veri eklenmiş; geri alma durduruldu".to_owned(),
                ),
            );
        }
        k = k + 1;
    }
    assert(suffix@ =~= expected.take(suffix@.len() as int));
    Ok(())
}

/// After a restore the FAT must hash to the original FAT hash and the DAT to
/// the original DAT hash (else `Integrity`).
pub fn restore_verified(u: &Undo, fat: Sha256State, dat: Sha256State) -> (r: Result<(), LoaderError>)
    ensures
        r is Ok <==> eq_ignore_case(digest_hex(fat.fed()), u.original_fat_hash@) && eq_ignore_case(
            digest_hex(dat.fed()),
            u.original_dat_hash@,
        ),
        r matches Err(e) ==> (e matches LoaderError::Integrity(m) && m@ == "FAT/DAT geri alma doğrulanamadı"@),
{
    let dat_text = dat.finish_hex();
    let dat_hex = dat_text.as_str();
    let fat_text = fat.finish_hex();
    let fat_hex = fat_text.as_str();
    if str_eq_ignore_case(fat_hex, u.original_fat_hash.as_str()) && str_eq_ignore_case(
        dat_hex,
        u.original_dat_hash.as_str(),
    ) {
        Ok(())
    } else {
        Err(LoaderError::Integrity("FAT/DAT geri alma doğrulanamadı".to_owned()))
    }
}

/// An installed pair is intact when the DAT and the FAT hash to the final
/// hashes of the undo record (up to case).
pub fn verify(u: &Undo, dat: Sha256State, fat: Sha256State) -> (r: bool)
    ensures
        r == (eq_ignore_case(digest_hex(dat.fed()), u.final_dat_hash@) && eq_ignore_case(
            digest_hex(fat.fed()),
            u.final_fat_hash@,
        )),
{
    let dat_text = dat.finish_hex();
    let dat_hex = dat_text.as_str();
    let fat_text = fat.finish_hex();
    let fat_hex = fat_text.as_str();
    str_eq_ignore_case(dat_hex, u.final_dat_hash.as_str()) && str_eq_ignore_case(
        fat_hex,
        u.final_fat_hash.as_str(),
    )
}

/// Disk space an append may need: the payload in memory and in the backup,
/// three copies of the FAT and a reserve of 1 MiB; a FAT too large for that
/// sum to fit in 64 bits needs `u64::MAX`.
pub fn disk_bytes(fat_len: u64) -> (r: u64)
    ensures
        r == if MAX_PAYLOAD * 2 + fat_len * 3 + 1048576 > u64::MAX {
            u64::MAX as int
        } else {
            MAX_PAYLOAD * 2 + fat_len * 3 + 1048576
        },
{
    if fat_len > (u64::MAX - MAX_PAYLOAD * 2 - 1048576) / 3 {
        return u64::MAX;
    }
    MAX_PAYLOAD * 2 + fat_len * 3 + 1048576
}

/// Law: whatever point an append reached — none, part or all of the padding
/// and payload written after the original DAT — the tail it left passes the
/// restore check, so an interrupted install can always be taken back.
pub proof fn law_interrupted_append_restorable(pad: int, payload: Seq<u8>, k: int)
    requires
        0 <= pad,
        0 <= k <= pad + payload.len(),
    ensures
        suffix_restorable(pad, payload, append_bytes(pad, payload).take(k)),
{
    assert(append_bytes(pad, payload).take(k).len() == k);
    assert(append_bytes(pad, payload).take(k) =~= append_bytes(pad, payload).take(k).take(k));
}

/// Law: undoing an append gives back the original DAT, whether the append
/// was whole or interrupted: the tail after the original bytes is one the
/// undo accepts, and cutting at the original length leaves exactly the
/// original bytes. Undoing again finds no tail, accepts that, and leaves the
/// original bytes as they are.
pub proof fn law_restore_round_trip(original: Seq<u8>, pad: int, payload: Seq<u8>, k: int)
    requires
        0 <= pad,
        0 <= k <= pad + payload.len(),
    ensures
        ({
            let grown = original + append_bytes(pad, payload).take(k);
            let n = original.len() as int;
            &&& suffix_restorable(pad, payload, grown.skip(n))
            &&& grown.take(n) == original
            &&& suffix_restorable(pad, payload, grown.take(n).skip(n))
            &&& grown.take(n).take(n) == original
        }),
{
    let grown = original + append_bytes(pad, payload).take(k);
    let n = original.len() as int;
    assert(grown.skip(n) =~= append_bytes(pad, payload).take(k));
    law_interrupted_append_restorable(pad, payload, k);
    assert(grown.take(n) =~= original);
    assert(original.skip(n) =~= Seq::<u8>::empty());
    law_interrupted_append_restorable(pad, payload, 0);
    assert(append_bytes(pad, payload).take(0) =~= Seq::<u8>::empty());
    assert(original.take(n) =~= original);
}

/// Law: undoing an append leaves a FAT that hashes to the original FAT's
/// hash: where the check said to put it back (`restore_check` gives `true`,
/// the current FAT not being the original) it is the intact backup, else the
/// current FAT, which is the original. Undoing again then finds the original
/// FAT and leaves it as it is.
pub proof fn law_restore_gives_back_fat(u: Undo, original: Seq<u8>, current: Seq<u8>)
    requires
        eq_ignore_case(digest_hex(original), u.original_fat_hash@),
        eq_ignore_case(digest_hex(current), u.original_fat_hash@) || eq_ignore_case(
            digest_hex(current),
            u.final_fat_hash@,
        ),
    ensures
        ({
            let fat_back = !eq_ignore_case(digest_hex(current), u.original_fat_hash@);
            let after = if fat_back {
                original
            } else {
                current
            };
            let back_again = !eq_ignore_case(digest_hex(after), u.original_fat_hash@);
            &&& eq_ignore_case(digest_hex(after), u.original_fat_hash@)
            &&& !back_again
        }),
{
}

/// Law: a tail that differs anywhere from the bytes the append writes is
/// never accepted, so restore cannot cut off data someone else appended.
pub proof fn law_foreign_tail_refused(pad: int, payload: Seq<u8>, suffix: Seq<u8>, j: int)
    requires
        0 <= pad,
        0 <= j < suffix.len(),
        j < pad + payload.len(),
        suffix[j] != append_bytes(pad, payload)[j],
    ensures
        !suffix_restorable(pad, payload, suffix),
{
    if suffix_restorable(pad, payload, suffix) {
        assert(suffix[j] == append_bytes(pad, payload).take(suffix.len() as int)[j]);
    }
}

/// An `Integrity` error with `message` unless `ok`.
pub fn need(ok: bool, message: &str) -> (r: Result<(), LoaderError>)
    ensures
        r is Ok <==> ok,
        r matches Err(e) ==> (e matches LoaderError::Integrity(m) && m@ == message@),
{
    if ok {
        Ok(())
    } else {
        Err(LoaderError::Integrity(message.to_owned()))
    }
}

/// A FAT/DAT path must be a plain portable relative path (see
/// `fat_relative_ok`), else an `Integrity` error.
pub fn relative(s: &str) -> (r: Result<(), LoaderError>)
    ensures
        r is Ok <==> fat_relative_ok(s@),
        r matches Err(e) ==> (e matches LoaderError::Integrity(m) && m@ == "FAT/DAT yolu güvenli relative yol olmalıdır"@),
{
    need(fat_relative(s), "FAT/DAT yolu güvenli relative yol olmalıdır")
}

proof fn lemma_patched_bytes(f: Seq<u8>, p: int, size: int, block: int)
    requires
        0 <= p,
        p + 20 <= f.len(),
    ensures
        patched_fat(f, p, size, block).len() == f.len(),
        forall|k: int|
            (0 <= k < p + 8 || p + 20 <= k < f.len()) ==> #[trigger] patched_fat(f, p, size, block)[k]
                == f[k],
{
    let g = patched_fat(f, p, size, block);
    assert forall|k: int| (0 <= k < p + 8 || p + 20 <= k < f.len()) implies #[trigger] g[k] == f[k] by {
        if k < p + 8 {
            assert(g[k] == f.take(p + 8)[k]);
        } else {
            assert(g[k] == f.skip(p + 20)[k - (p + 20)]);
        }
    }
}

/// Law: an append rewrites only the size and position fields of the target
/// record. The header and every other record, and the target's name hash,
/// read the same in the updated table, so the rest of the archive stays as
/// the game had it.
pub proof fn law_append_keeps_other_records(f: Seq<u8>, i: int, j: int, size: int, block: int)
    requires
        0 <= i < record_count(f),
        0 <= j < record_count(f),
        i != j,
        count_ok(f),
    ensures
        ({
            let g = patched_fat(f, record_pos(i), size, block);
            &&& g.len() == f.len()
            &&& le32(g, 0) == le32(f, 0)
            &&& le32(g, 4) == le32(f, 4)
            &&& record_count(g) == record_count(f)
            &&& record_hash(g, j) == record_hash(f, j)
            &&& record_offset(g, j) == record_offset(f, j)
            &&& record_size(g, j) == record_size(f, j)
            &&& record_hash(g, i) == record_hash(f, i)
        }),
{
    let p = record_pos(i);
    let q = record_pos(j);
    assert(record_count(f) * 20 <= f.len() - 24) by (nonlinear_arith)
        requires
            record_count(f) <= (f.len() - 24) / 20,
            f.len() - 24 >= 0 || record_count(f) <= 0,
    ;
    assert(p + 20 <= f.len());
    assert(q + 20 <= f.len());
    lemma_patched_bytes(f, p, size, block);
    let g = patched_fat(f, p, size, block);
    assert(g[0] == f[0] && g[1] == f[1] && g[2] == f[2] && g[3] == f[3]);
    assert(g[4] == f[4] && g[5] == f[5] && g[6] == f[6] && g[7] == f[7]);
    assert(g[20] == f[20] && g[21] == f[21] && g[22] == f[22] && g[23] == f[23]);
    assert forall|k: int| q <= k < q + 20 implies #[trigger] g[k] == f[k] by {
        if j < i {
            assert(q + 20 <= p);
        } else {
            assert(p + 20 <= q);
        }
    }
    assert forall|k: int| p <= k < p + 8 implies #[trigger] g[k] == f[k] by {}
    assert(g[q] == f[q] && g[q + 1] == f[q + 1] && g[q + 2] == f[q + 2] && g[q + 3] == f[q + 3]);
    assert(g[q + 4] == f[q + 4] && g[q + 5] == f[q + 5] && g[q + 6] == f[q + 6] && g[q + 7] == f[q + 7]);
    assert(g[q + 8] == f[q + 8] && g[q + 9] == f[q + 9] && g[q + 10] == f[q + 10] && g[q + 11] == f[q + 11]);
    assert(g[q + 12] == f[q + 12] && g[q + 13] == f[q + 13] && g[q + 14] == f[q + 14] && g[q + 15] == f[q + 15]);
    assert(g[q + 16] == f[q + 16] && g[q + 17] == f[q + 17] && g[q + 18] == f[q + 18] && g[q + 19] == f[q + 19]);
    assert(g[p] == f[p] && g[p + 1] == f[p + 1] && g[p + 2] == f[p + 2] && g[p + 3] == f[p + 3]);
    assert(g[p + 4] == f[p + 4] && g[p + 5] == f[p + 5] && g[p + 6] == f[p + 6] && g[p + 7] == f[p + 7]);
}

} // verus!
