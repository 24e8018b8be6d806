//! Download rules: which URLs may be fetched, how a MediaFire landing page
//! is turned into its direct link, and the cache, resume and size checks
//! around a download. The transfer itself is done by the caller.
use crate::error::LoaderError;
use crate::hashing::{digest_hex, Sha256State};
use crate::packer::push_all;
use crate::patch::engine::{all_digits, dec_value};
use crate::text::{
    chars_of, ends_with, eq_ignore_case, is_digit, is_hex_digit, lower_code, split_char, split_ranges,
    str_eq, str_eq_ignore_case, dec_chars, decimal, join_str, string_from,
};
use vstd::prelude::*;
use vstd::string::StringSliceAdditionalSpecFns;

verus! {

/// `p` occurs in `s` at `i`.
pub open spec fn occurs_at(s: Seq<u8>, p: Seq<u8>, i: int) -> bool {
    0 <= i && i + p.len() <= s.len() && s.subrange(i, i + p.len()) == p
}

/// The first index where `p` occurs in `s` (as `str::find`).
#[verifier::opaque]
pub open spec fn find(s: Seq<u8>, p: Seq<u8>) -> Option<int> {
    if exists|i: int| occurs_at(s, p, i) {
        Some(choose|i: int| occurs_at(s, p, i) && forall|j: int| 0 <= j < i ==> !occurs_at(s, p, j))
    } else {
        None
    }
}

/// The last index where `p` occurs in `s` (as `str::rfind`).
#[verifier::opaque]
pub open spec fn rfind(s: Seq<u8>, p: Seq<u8>) -> Option<int> {
    if exists|i: int| occurs_at(s, p, i) {
        Some(choose|i: int| occurs_at(s, p, i) && forall|j: int| i < j ==> !occurs_at(s, p, j))
    } else {
        None
    }
}

/// Whether `p` occurs in `s` at `i` (computed).
pub fn match_at(s: &[u8], p: &[u8], i: usize) -> (r: bool)
    ensures
        r == occurs_at(s@, p@, i as int),
{
    if i > s.len() || s.len() - i < p.len() {
        return false;
    }
    let n = s.len();
    let mut k: usize = 0;
    while k < p.len()
        invariant
            k <= p@.len(),
            n == s@.len(),
            i + p@.len() <= s@.len(),
            forall|j: int| 0 <= j < k ==> s@[i + j] == p@[j],
        decreases p@.len() - k,
    {
        if s[i + k] != p[k] {
            proof {
                assert(s@.subrange(i as int, i + p@.len())[k as int] != p@[k as int]);
            }
            return false;
        }
        k = k + 1;
    }
    proof {
        assert(s@.subrange(i as int, i + p@.len()) =~= p@);
    }
    true
}

/// See `find`.
pub fn find_bytes(s: &[u8], p: &[u8]) -> (r: Option<usize>)
    ensures
        match r {
            Some(i) => find(s@, p@) == Some(i as int) && occurs_at(s@, p@, i as int),
            None => find(s@, p@) is None,
        },
{
    let n = s.len();
    let mut i: usize = 0;
    while i < n
        invariant
            i <= n,
            n == s@.len(),
            forall|j: int| 0 <= j < i ==> !occurs_at(s@, p@, j),
        decreases n - i,
    {
        if match_at(s, p, i) {
            proof {
                lemma_first_is_find(s@, p@, i as int);
            }
            return Some(i);
        }
        i = i + 1;
    }
    if match_at(s, p, n) {
        proof {
            lemma_first_is_find(s@, p@, n as int);
        }
        return Some(n);
    }
    proof {
        reveal(find);
        assert forall|j: int| !occurs_at(s@, p@, j) by {
            if 0 <= j && j <= n {
            }
        }
    }
    None
}

proof fn lemma_first_is_find(s: Seq<u8>, p: Seq<u8>, i: int)
    requires
        occurs_at(s, p, i),
        forall|j: int| 0 <= j < i ==> !occurs_at(s, p, j),
    ensures
        find(s, p) == Some(i),
{
    reveal(find);
    let c = choose|c: int| occurs_at(s, p, c) && forall|j: int| 0 <= j < c ==> !occurs_at(s, p, j);
    if c < i {
    } else if c > i {
        assert(!occurs_at(s, p, i));
    }
}

proof fn lemma_last_is_rfind(s: Seq<u8>, p: Seq<u8>, i: int)
    requires
        occurs_at(s, p, i),
        forall|j: int| i < j ==> !occurs_at(s, p, j),
    ensures
        rfind(s, p) == Some(i),
{
    reveal(rfind);
    let c = choose|c: int| occurs_at(s, p, c) && forall|j: int| c < j ==> !occurs_at(s, p, j);
    if c < i {
        assert(!occurs_at(s, p, i));
    } else if c > i {
    }
}

/// See `rfind`.
pub fn rfind_bytes(s: &[u8], p: &[u8]) -> (r: Option<usize>)
    ensures
        match r {
            Some(i) => rfind(s@, p@) == Some(i as int) && occurs_at(s@, p@, i as int),
            None => rfind(s@, p@) is None,
        },
{
    let n = s.len();
    if match_at(s, p, n) {
        proof {
            assert forall|j: int| n < j implies !occurs_at(s@, p@, j) by {}
            lemma_last_is_rfind(s@, p@, n as int);
        }
        return Some(n);
    }
    let mut i: usize = n;
    while i > 0
        invariant
            i <= n,
            n == s@.len(),
            forall|j: int| i <= j ==> !occurs_at(s@, p@, j),
        decreases i,
    {
        i = i - 1;
        if match_at(s, p, i) {
            proof {
                lemma_last_is_rfind(s@, p@, i as int);
            }
            return Some(i);
        }
    }
    proof {
        reveal(rfind);
    }
    None
}

/// `s` with every occurrence of `p` (left to right, not overlapping)
/// replaced by `r` (as `str::replace`).
pub open spec fn replace(s: Seq<u8>, p: Seq<u8>, r: Seq<u8>) -> Seq<u8>
    decreases s.len(),
{
    if s.len() == 0 || p.len() == 0 {
        s
    } else if occurs_at(s, p, 0) {
        r + replace(s.skip(p.len() as int), p, r)
    } else {
        seq![s[0]] + replace(s.drop_first(), p, r)
    }
}

/// See `replace`.
pub fn replace_bytes(s: &[u8], p: &[u8], r: &[u8]) -> (out: Vec<u8>)
    requires
        p@.len() > 0,
    ensures
        out@ == replace(s@, p@, r@),
{
    let mut out: Vec<u8> = Vec::new();
    let mut i: usize = 0;
    assert(s@.skip(0) =~= s@);
    while i < s.len()
        invariant
            i <= s@.len(),
            p@.len() > 0,
            out@ + replace(s@.skip(i as int), p@, r@) == replace(s@, p@, r@),
        decreases s@.len() - i,
    {
        let ghost rest = s@.skip(i as int);
        if match_at(s, p, i) {
            proof {
                assert(rest.subrange(0, p@.len() as int) =~= s@.subrange(i as int, i + p@.len()));
                assert(occurs_at(rest, p@, 0));
                assert(rest.skip(p@.len() as int) =~= s@.skip(i + p@.len()));
                assert(out@ + (r@ + replace(rest.skip(p@.len() as int), p@, r@)) =~= (out@ + r@)
                    + replace(s@.skip(i + p@.len()), p@, r@));
            }
            push_all(&mut out, r);
            i = i + p.len();
        } else {
            proof {
                if occurs_at(rest, p@, 0) {
                    assert(rest.subrange(0, p@.len() as int) =~= s@.subrange(i as int, i + p@.len()));
                }
                assert(rest.drop_first() =~= s@.skip(i + 1));
                assert(out@ + (seq![rest[0]] + replace(rest.drop_first(), p@, r@)) =~= out@.push(
                    s@[i as int],
                ) + replace(s@.skip(i + 1), p@, r@));
            }
            out.push(s[i]);
            i = i + 1;
        }
    }
    proof {
        assert(s@.skip(i as int).len() == 0);
        assert(out@ + replace(s@.skip(i as int), p@, r@) =~= out@);
    }
    out
}

/// Byte strings the page scanner looks for.
pub open spec fn amp_named() -> Seq<u8> {
    seq![38u8, 97u8, 109u8, 112u8, 59u8]
}

fn amp_named_bytes() -> (r: Vec<u8>)
    ensures
        r@ == amp_named(),
{
    let r = vec![38u8, 97u8, 109u8, 112u8, 59u8];
    assert(r@ =~= amp_named());
    r
}

pub open spec fn amp_dec() -> Seq<u8> {
    seq![38u8, 35u8, 51u8, 56u8, 59u8]
}

fn amp_dec_bytes() -> (r: Vec<u8>)
    ensures
        r@ == amp_dec(),
{
    let r = vec![38u8, 35u8, 51u8, 56u8, 59u8];
    assert(r@ =~= amp_dec());
    r
}

pub open spec fn amp_hex() -> Seq<u8> {
    seq![38u8, 35u8, 120u8, 50u8, 54u8, 59u8]
}

fn amp_hex_bytes() -> (r: Vec<u8>)
    ensures
        r@ == amp_hex(),
{
    let r = vec![38u8, 35u8, 120u8, 50u8, 54u8, 59u8];
    assert(r@ =~= amp_hex());
    r
}

pub open spec fn slash_hex() -> Seq<u8> {
    seq![38u8, 35u8, 120u8, 50u8, 70u8, 59u8]
}

fn slash_hex_bytes() -> (r: Vec<u8>)
    ensures
        r@ == slash_hex(),
{
    let r = vec![38u8, 35u8, 120u8, 50u8, 70u8, 59u8];
    assert(r@ =~= slash_hex());
    r
}

pub open spec fn slash_dec() -> Seq<u8> {
    seq![38u8, 35u8, 52u8, 55u8, 59u8]
}

fn slash_dec_bytes() -> (r: Vec<u8>)
    ensures
        r@ == slash_dec(),
{
    let r = vec![38u8, 35u8, 52u8, 55u8, 59u8];
    assert(r@ =~= slash_dec());
    r
}

pub open spec fn href_dq() -> Seq<u8> {
    seq![104u8, 114u8, 101u8, 102u8, 61u8, 34u8]
}

fn href_dq_bytes() -> (r: Vec<u8>)
    ensures
        r@ == href_dq(),
{
    let r = vec![104u8, 114u8, 101u8, 102u8, 61u8, 34u8];
    assert(r@ =~= href_dq());
    r
}

pub open spec fn href_sq() -> Seq<u8> {
    seq![104u8, 114u8, 101u8, 102u8, 61u8, 39u8]
}

fn href_sq_bytes() -> (r: Vec<u8>)
    ensures
        r@ == href_sq(),
{
    let r = vec![104u8, 114u8, 101u8, 102u8, 61u8, 39u8];
    assert(r@ =~= href_sq());
    r
}

pub open spec fn https_prefix() -> Seq<u8> {
    seq![104u8, 116u8, 116u8, 112u8, 115u8, 58u8, 47u8, 47u8]
}

fn https_prefix_bytes() -> (r: Vec<u8>)
    ensures
        r@ == https_prefix(),
{
    let r = vec![104u8, 116u8, 116u8, 112u8, 115u8, 58u8, 47u8, 47u8];
    assert(r@ =~= https_prefix());
    r
}

pub open spec fn button_dq() -> Seq<u8> {
    seq![105u8, 100u8, 61u8, 34u8, 100u8, 111u8, 119u8, 110u8, 108u8, 111u8, 97u8, 100u8, 66u8, 117u8, 116u8, 116u8, 111u8, 110u8, 34u8]
}

fn button_dq_bytes() -> (r: Vec<u8>)
    ensures
        r@ == button_dq(),
{
    let r = vec![105u8, 100u8, 61u8, 34u8, 100u8, 111u8, 119u8, 110u8, 108u8, 111u8, 97u8, 100u8, 66u8, 117u8, 116u8, 116u8, 111u8, 110u8, 34u8];
    assert(r@ =~= button_dq());
    r
}

pub open spec fn button_sq() -> Seq<u8> {
    seq![105u8, 100u8, 61u8, 39u8, 100u8, 111u8, 119u8, 110u8, 108u8, 111u8, 97u8, 100u8, 66u8, 117u8, 116u8, 116u8, 111u8, 110u8, 39u8]
}

fn button_sq_bytes() -> (r: Vec<u8>)
    ensures
        r@ == button_sq(),
{
    let r = vec![105u8, 100u8, 61u8, 39u8, 100u8, 111u8, 119u8, 110u8, 108u8, 111u8, 97u8, 100u8, 66u8, 117u8, 116u8, 116u8, 111u8, 110u8, 39u8];
    assert(r@ =~= button_sq());
    r
}

pub open spec fn cdn_plain() -> Seq<u8> {
    seq![104u8, 116u8, 116u8, 112u8, 115u8, 58u8, 47u8, 47u8, 100u8, 111u8, 119u8, 110u8, 108u8, 111u8, 97u8, 100u8]
}

fn cdn_plain_bytes() -> (r: Vec<u8>)
    ensures
        r@ == cdn_plain(),
{
    let r = vec![104u8, 116u8, 116u8, 112u8, 115u8, 58u8, 47u8, 47u8, 100u8, 111u8, 119u8, 110u8, 108u8, 111u8, 97u8, 100u8];
    assert(r@ =~= cdn_plain());
    r
}

pub open spec fn cdn_escaped() -> Seq<u8> {
    seq![104u8, 116u8, 116u8, 112u8, 115u8, 58u8, 92u8, 47u8, 92u8, 47u8, 100u8, 111u8, 119u8, 110u8, 108u8, 111u8, 97u8, 100u8]
}

fn cdn_escaped_bytes() -> (r: Vec<u8>)
    ensures
        r@ == cdn_escaped(),
{
    let r = vec![104u8, 116u8, 116u8, 112u8, 115u8, 58u8, 92u8, 47u8, 92u8, 47u8, 100u8, 111u8, 119u8, 110u8, 108u8, 111u8, 97u8, 100u8];
    assert(r@ =~= cdn_escaped());
    r
}

pub open spec fn escaped_slash() -> Seq<u8> {
    seq![92u8, 47u8]
}

fn escaped_slash_bytes() -> (r: Vec<u8>)
    ensures
        r@ == escaped_slash(),
{
    let r = vec![92u8, 47u8];
    assert(r@ =~= escaped_slash());
    r
}

/// HTML attribute decoding, as the loader does it: five entity
/// replacements in a fixed order.
#[verifier::opaque]
pub open spec fn decode_attr(v: Seq<u8>) -> Seq<u8> {
    let a = replace(v, amp_named(), seq![38u8]);
    let b = replace(a, amp_dec(), seq![38u8]);
    let c = replace(b, amp_hex(), seq![38u8]);
    let d = replace(c, slash_hex(), seq![47u8]);
    replace(d, slash_dec(), seq![47u8])
}

/// See `decode_attr`.
pub fn decode_html_attribute(v: &[u8]) -> (r: Vec<u8>)
    ensures
        r@ == decode_attr(v@),
{
    let amp = vec![38u8];
    let slash = vec![47u8];
    let p1 = amp_named_bytes();
    let a = replace_bytes(v, p1.as_slice(), amp.as_slice());
    let p2 = amp_dec_bytes();
    let b = replace_bytes(a.as_slice(), p2.as_slice(), amp.as_slice());
    let p3 = amp_hex_bytes();
    let c = replace_bytes(b.as_slice(), p3.as_slice(), amp.as_slice());
    let p4 = slash_hex_bytes();
    let d = replace_bytes(c.as_slice(), p4.as_slice(), slash.as_slice());
    let p5 = slash_dec_bytes();
    let e = replace_bytes(d.as_slice(), p5.as_slice(), slash.as_slice());
    assert(amp@ =~= seq![38u8]);
    assert(slash@ =~= seq![47u8]);
    proof {
        reveal(decode_attr);
    }
    e
}

/// `v` begins with `https://`.
pub open spec fn is_https(v: Seq<u8>) -> bool {
    v.len() >= 8 && v.take(8) == https_prefix()
}

fn starts_https(v: &[u8]) -> (r: bool)
    ensures
        r == is_https(v@),
{
    let p = https_prefix_bytes();
    let m = match_at(v, p.as_slice(), 0);
    proof {
        if m {
            assert(v@.subrange(0, 8) =~= v@.take(8));
        } else if v@.len() >= 8 {
            assert(v@.subrange(0, 8) =~= v@.take(8));
        }
    }
    m
}

/// The views of optional byte vectors.
pub open spec fn opt_bytes(r: Option<Vec<u8>>) -> Option<Seq<u8>> {
    match r {
        Some(v) => Some(v@),
        None => None,
    }
}

/// The text of `tail` up to the first `quote`, decoded, where it is an
/// `https://` link.
pub open spec fn quoted_link(tail: Seq<u8>, quote: u8) -> Option<Seq<u8>> {
    match find(tail, seq![quote]) {
        None => None,
        Some(e) => {
            let v = decode_attr(tail.take(e));
            if is_https(v) {
                Some(v)
            } else {
                None
            }
        },
    }
}

/// The link after the first `prefix` in `area` (see `quoted_link`).
pub open spec fn href_after(area: Seq<u8>, prefix: Seq<u8>, quote: u8) -> Option<Seq<u8>> {
    match find(area, prefix) {
        None => None,
        Some(st) => quoted_link(area.skip(st + prefix.len()), quote),
    }
}

/// The link after the last `prefix` in `before` (see `quoted_link`).
pub open spec fn href_before(before: Seq<u8>, prefix: Seq<u8>, quote: u8) -> Option<Seq<u8>> {
    match rfind(before, prefix) {
        None => None,
        Some(st) => quoted_link(before.skip(st + prefix.len()), quote),
    }
}

/// The first `https://` link of an area: after a double-quoted `href`
/// first, then after a single-quoted one.
pub open spec fn href_in_area(area: Seq<u8>) -> Option<Seq<u8>> {
    match href_after(area, href_dq(), 34u8) {
        Some(v) => Some(v),
        None => href_after(area, href_sq(), 39u8),
    }
}

/// See `quoted_link`; `tail` is `s[from..]`.
fn quoted_link_at(s: &[u8], from: usize, quote: u8) -> (r: Option<Vec<u8>>)
    requires
        from <= s@.len(),
    ensures
        opt_bytes(r) == quoted_link(s@.skip(from as int), quote),
{
    let tail = crate::packer::sub_bytes(s, from, s.len());
    assert(tail@ =~= s@.skip(from as int));
    let q = vec![quote];
    assert(q@ =~= seq![quote]);
    match find_bytes(tail.as_slice(), q.as_slice()) {
        None => None,
        Some(e) => {
            let raw = crate::packer::sub_bytes(tail.as_slice(), 0, e);
            assert(raw@ =~= tail@.take(e as int));
            let v = decode_html_attribute(raw.as_slice());
            if starts_https(v.as_slice()) {
                Some(v)
            } else {
                None
            }
        },
    }
}

fn href_after_exec(area: &[u8], prefix: &[u8], quote: u8) -> (r: Option<Vec<u8>>)
    ensures
        opt_bytes(r) == href_after(area@, prefix@, quote),
{
    let _n = area.len();
    match find_bytes(area, prefix) {
        None => None,
        Some(st) => {
            quoted_link_at(area, st + prefix.len(), quote)
        },
    }
}

fn href_before_exec(before: &[u8], prefix: &[u8], quote: u8) -> (r: Option<Vec<u8>>)
    ensures
        opt_bytes(r) == href_before(before@, prefix@, quote),
{
    let _n = before.len();
    match rfind_bytes(before, prefix) {
        None => None,
        Some(st) => {
            quoted_link_at(before, st + prefix.len(), quote)
        },
    }
}

/// See `href_in_area`.
pub fn extract_href_from_area(area: &[u8]) -> (r: Option<Vec<u8>>)
    ensures
        opt_bytes(r) == href_in_area(area@),
{
    let dq = href_dq_bytes();
    match href_after_exec(area, dq.as_slice(), 34u8) {
        Some(v) => Some(v),
        None => {
            let sq = href_sq_bytes();
            href_after_exec(area, sq.as_slice(), 39u8)
        },
    }
}

/// What the loader reads of a parsed URL: scheme, host (if any), path and
/// the whole serialized URL.
pub struct UrlParts {
    pub scheme: String,
    pub host: Option<String>,
    pub path: String,
    pub href: String,
}

/// The view of `UrlParts`.
pub open spec fn parts_view(p: UrlParts) -> (Seq<char>, Option<Seq<char>>, Seq<char>, Seq<char>) {
    (
        p.scheme@,
        match p.host {
            Some(h) => Some(h@),
            None => None,
        },
        p.path@,
        p.href@,
    )
}

/// What `url::Url::parse` (through `reqwest::Url`) makes of the UTF-8 text
/// `b`: scheme, `host_str`, path and serialization (`as_str`), or `None`
/// where `b` is no UTF-8 or no URL. A function of the bytes alone.
pub uninterp spec fn url_parts(b: Seq<u8>) -> Option<(Seq<char>, Option<Seq<char>>, Seq<char>, Seq<char>)>;

/// `std::str::from_utf8` then `reqwest::Url::parse`, keeping `scheme()`,
/// `host_str()`, `path()` and `as_str()`.
#[verifier::external_body]
fn parse_url(b: &[u8]) -> (r: Option<UrlParts>)
    ensures
        match r {
            Some(p) => url_parts(b@) == Some(parts_view(p)),
            None => url_parts(b@) is None,
        },
{
    let text = std::str::from_utf8(b).ok()?;
    let url = reqwest::Url::parse(text).ok()?;
    let host = url.host_str().map(str::to_owned);
    let (scheme, path) = (url.scheme().to_owned(), url.path().to_owned());
    Some(UrlParts { scheme, host, path, href: url.as_str().to_owned() })
}

/// Parses a download URL (see `url_parts`).
pub fn parse_download_url(url: &str) -> (r: Option<UrlParts>)
    ensures
        match r {
            Some(p) => url_parts(url.spec_bytes()) == Some(parts_view(p)),
            None => url_parts(url.spec_bytes()) is None,
        },
{
    parse_url(url.as_bytes())
}

/// `c` in ASCII lower case.
pub open spec fn lower_char(c: char) -> char {
    if 'A' <= c <= 'Z' {
        ((c as u32) + 32) as char
    } else {
        c
    }
}

/// `s` in ASCII lower case (as `str::to_ascii_lowercase`).
pub open spec fn lower_all(s: Seq<char>) -> Seq<char> {
    s.map_values(|c: char| lower_char(c))
}

/// See `lower_all`.
pub fn to_lower(s: &str) -> (r: Vec<char>)
    ensures
        r@ == lower_all(s@),
{
    let v = chars_of(s);
    let mut out: Vec<char> = Vec::new();
    let mut i: usize = 0;
    while i < v.len()
        invariant
            i <= v@.len(),
            v@ == s@,
            out@ == lower_all(v@).take(i as int),
        decreases v@.len() - i,
    {
        let c = v[i];
        let l = if 'A' <= c && c <= 'Z' {
            ((c as u32) + 32) as u8 as char
        } else {
            c
        };
        proof {
            if 'A' <= c && c <= 'Z' {
                assert((((c as u32) + 32) as u8) as char == ((c as u32) + 32) as char);
            }
        }
        out.push(l);
        proof {
            assert(lower_all(v@).take(i + 1) =~= lower_all(v@).take(i as int).push(l));
        }
        i = i + 1;
    }
    proof {
        assert(lower_all(v@).take(v@.len() as int) =~= lower_all(v@));
    }
    out
}

/// An IPv4 octet as `std`'s address parser reads it: one to three decimal
/// digits, at most 255, without a leading zero.
pub open spec fn octet_ok(p: Seq<char>) -> bool {
    &&& 1 <= p.len() <= 3
    &&& all_digits(p)
    &&& dec_value(p) <= 255
    &&& (p.len() == 1 || p[0] != '0')
}

/// `host` is a dotted-quad IPv4 address.
pub open spec fn is_ipv4(host: Seq<char>) -> bool {
    let parts = split_char(host, '.');
    parts.len() == 4 && forall|i: int| 0 <= i < 4 ==> octet_ok(#[trigger] parts[i])
}

/// Octet `i` of an IPv4 host.
pub open spec fn octet(host: Seq<char>, i: int) -> int {
    dec_value(split_char(host, '.')[i])
}

/// The IPv4 ranges downloads may not come from: private (10/8, 172.16/12,
/// 192.168/16), loopback (127/8), link-local (169.254/16) and 0.0.0.0.
pub open spec fn blocked_ipv4(host: Seq<char>) -> bool {
    let a = octet(host, 0);
    let b = octet(host, 1);
    &&& is_ipv4(host)
    &&& {
        ||| a == 10
        ||| a == 172 && 16 <= b <= 31
        ||| a == 192 && b == 168
        ||| a == 127
        ||| a == 169 && b == 254
        ||| a == 0 && b == 0 && octet(host, 2) == 0 && octet(host, 3) == 0
    }
}

/// Why a download URL is refused.
#[derive(Clone, Copy, Debug, PartialEq, Eq, Structural)]
pub enum UrlRefusal {
    NotHttps,
    NoHost,
    LocalName,
    PrivateAddress,
}

/// The host names `localhost` (any case) and `*.localhost`.
pub open spec fn local_name(host: Seq<char>) -> bool {
    eq_ignore_case(host, "localhost"@) || ends_with(host, ".localhost"@)
}

/// The judgement of a download URL: HTTPS, with a host that is neither a
/// local name nor a blocked IPv4 address. (`url` writes IPv6 hosts in
/// brackets, which `std`'s address parser refuses, so only IPv4 hosts are
/// ever blocked by address.)
pub open spec fn url_refusal(p: (Seq<char>, Option<Seq<char>>, Seq<char>, Seq<char>)) -> Option<UrlRefusal> {
    if p.0 != "https"@ {
        Some(UrlRefusal::NotHttps)
    } else {
        match p.1 {
            None => Some(UrlRefusal::NoHost),
            Some(h) => if local_name(h) {
                Some(UrlRefusal::LocalName)
            } else if blocked_ipv4(h) {
                Some(UrlRefusal::PrivateAddress)
            } else {
                None
            },
        }
    }
}

/// The value of `v[lo..hi]` where it is an IPv4 octet.
fn octet_at(v: &Vec<char>, lo: usize, hi: usize) -> (r: Option<u8>)
    requires
        lo <= hi <= v@.len(),
    ensures
        match r {
            Some(x) => octet_ok(v@.subrange(lo as int, hi as int)) && x == dec_value(
                v@.subrange(lo as int, hi as int),
            ),
            None => !octet_ok(v@.subrange(lo as int, hi as int)),
        },
{
    let ghost t = v@.subrange(lo as int, hi as int);
    if hi - lo < 1 || hi - lo > 3 {
        return None;
    }
    if hi - lo > 1 && v[lo] == '0' {
        return None;
    }
    let mut acc: u32 = 0;
    let mut i = lo;
    while i < hi
        invariant
            lo <= i <= hi <= v@.len(),
            hi - lo <= 3,
            t == v@.subrange(lo as int, hi as int),
            forall|j: int| lo <= j < i ==> is_digit(#[trigger] v@[j]),
            acc == dec_value(t.take(i - lo)),
            i - lo == 0 ==> acc == 0,
            i - lo == 1 ==> acc < 10,
            i - lo == 2 ==> acc < 100,
            acc < 1000,
        decreases hi - i,
    {
        let c = v[i];
        if !('0' <= c && c <= '9') {
            proof {
                assert(!is_digit(t[i - lo]));
            }
            return None;
        }
        proof {
            assert(t.take(i - lo + 1).drop_last() =~= t.take(i - lo));
            assert(t.take(i - lo + 1).last() == c);
            assert(i - lo < 3);
        }
        acc = acc * 10 + (c as u32 - 48);
        i = i + 1;
    }
    proof {
        assert(t.take(hi - lo) =~= t);
    }
    if acc > 255 {
        return None;
    }
    Some(acc as u8)
}

/// Whether a host is a blocked IPv4 address (see `blocked_ipv4`).
fn host_blocked(host: &str) -> (r: bool)
    ensures
        r == blocked_ipv4(host@),
{
    let v = chars_of(host);
    proof {
        assert(v@.subrange(0, v@.len() as int) =~= v@);
    }
    let ranges = split_ranges(&v, 0, v.len(), '.');
    if ranges.len() != 4 {
        return false;
    }
    let mut octets: Vec<u8> = Vec::new();
    let ghost parts = split_char(host@, '.');
    let mut k: usize = 0;
    while k < 4
        invariant
            k <= 4,
            v@ == host@,
            ranges@.len() == 4,
            ranges@.len() == split_char(host@, '.').len(),
            forall|m: int|
                0 <= m < 4 ==> (#[trigger] ranges@[m]).0 <= ranges@[m].1 <= v@.len()
                    && v@.subrange(ranges@[m].0 as int, ranges@[m].1 as int) == split_char(
                    host@,
                    '.',
                )[m],
            octets@.len() == k,
            parts == split_char(host@, '.'),
            forall|m: int| 0 <= m < k ==> octet_ok(#[trigger] parts[m]),
            forall|m: int| 0 <= m < k ==> #[trigger] octets@[m] == dec_value(parts[m]),
        decreases 4 - k,
    {
        let (lo, hi) = ranges[k];
        proof {
            assert(v@.subrange(lo as int, hi as int) == split_char(host@, '.')[k as int]);
        }
        match octet_at(&v, lo, hi) {
            Some(x) => {
                let ghost before = octets@;
                octets.push(x);
                proof {
                    assert forall|m: int| 0 <= m < k + 1 implies #[trigger] octets@[m] == dec_value(
                        parts[m],
                    ) by {
                        if m < k {
                            assert(octets@[m] == before[m]);
                        }
                    }
                }
            },
            None => {
                return false;
            },
        }
        k = k + 1;
    }
    let a = octets[0];
    let b = octets[1];
    proof {
        assert(is_ipv4(host@));
        assert(a == octet(host@, 0));
        assert(b == octet(host@, 1));
        assert(octets@[2] == octet(host@, 2));
        assert(octets@[3] == octet(host@, 3));
    }
    a == 10 || (a == 172 && 16 <= b && b <= 31) || (a == 192 && b == 168) || a == 127 || (a
        == 169 && b == 254) || (a == 0 && b == 0 && octets[2] == 0 && octets[3] == 0)
}

/// Checks that a download URL may be fetched (see `url_refusal`).
pub fn validate_public_https_url(url: &UrlParts) -> (r: Result<(), UrlRefusal>)
    ensures
        match url_refusal(parts_view(*url)) {
            None => r is Ok,
            Some(why) => r == Err::<(), UrlRefusal>(why),
        },
{
    if !str_eq(url.scheme.as_str(), "https") {
        return Err(UrlRefusal::NotHttps);
    }
    let host = match &url.host {
        None => {
            return Err(UrlRefusal::NoHost);
        },
        Some(h) => h,
    };
    let hv = chars_of(host.as_str());
    let suffix = chars_of(".localhost");
    if str_eq_ignore_case(host.as_str(), "localhost") || crate::patch::fat_dat::ends_with_chars(
        &hv,
        &suffix,
    ) {
        return Err(UrlRefusal::LocalName);
    }
    if host_blocked(host.as_str()) {
        return Err(UrlRefusal::PrivateAddress);
    }
    Ok(())
}

/// `p` occurs in `s` at `i`.
pub open spec fn chars_at(s: Seq<char>, p: Seq<char>, i: int) -> bool {
    0 <= i && i + p.len() <= s.len() && s.subrange(i, i + p.len()) == p
}

/// `s` contains `p`.
pub open spec fn contains_chars(s: Seq<char>, p: Seq<char>) -> bool {
    exists|i: int| #[trigger] chars_at(s, p, i)
}

/// See `contains_chars`.
pub fn contains_in(s: &Vec<char>, p: &Vec<char>) -> (r: bool)
    ensures
        r == contains_chars(s@, p@),
{
    if p.len() > s.len() {
        return false;
    }
    let m = s.len() - p.len();
    let mut i: usize = 0;
    while i < m
        invariant
            m == s@.len() - p@.len(),
            p@.len() <= s@.len(),
            s@.len() <= usize::MAX,
            i <= m,
            forall|j: int| 0 <= j < i ==> !#[trigger] chars_at(s@, p@, j),
        decreases m - i,
    {
        if crate::text::range_eq(s, i, i + p.len(), p) {
            assert(chars_at(s@, p@, i as int));
            return true;
        }
        i = i + 1;
    }
    if crate::text::range_eq(s, m, s.len(), p) {
        assert(chars_at(s@, p@, m as int));
        return true;
    }
    proof {
        assert forall|j: int| !#[trigger] chars_at(s@, p@, j) by {
            if 0 <= j && j <= m {
            }
        }
    }
    false
}

/// A MediaFire landing page (`/file/.../file` on `mediafire.com` or
/// `www.mediafire.com`), which is HTML and not the archive.
pub open spec fn landing_page(p: (Seq<char>, Option<Seq<char>>, Seq<char>, Seq<char>)) -> bool {
    let host = match p.1 {
        Some(h) => lower_all(h),
        None => Seq::empty(),
    };
    &&& (host == "mediafire.com"@ || host == "www.mediafire.com"@)
    &&& contains_chars(p.2, "/file/"@)
    &&& ends_with(p.2, "/file"@)
}

/// See `landing_page`.
pub fn is_mediafire_landing_url(url: &UrlParts) -> (r: bool)
    ensures
        r == landing_page(parts_view(*url)),
{
    let host = match &url.host {
        Some(h) => to_lower(h.as_str()),
        None => Vec::new(),
    };
    let a = chars_of("mediafire.com");
    let b = chars_of("www.mediafire.com");
    let is_host = crate::text::range_eq(&host, 0, host.len(), &a) || crate::text::range_eq(
        &host,
        0,
        host.len(),
        &b,
    );
    proof {
        assert(host@.subrange(0, host@.len() as int) =~= host@);
    }
    if !is_host {
        return false;
    }
    let path = chars_of(url.path.as_str());
    let inner = chars_of("/file/");
    let tail = chars_of("/file");
    contains_in(&path, &inner) && crate::patch::fat_dat::ends_with_chars(&path, &tail)
}

/// The byte window around a marker at `mp` starts 8192 bytes before it.
pub open spec fn window_start(mp: int) -> int {
    if mp >= 8192 {
        mp - 8192
    } else {
        0
    }
}

/// ... and ends 8192 bytes after it (or at the end of the page).
pub open spec fn window_end(mp: int, len: int) -> int {
    if mp + 8192 <= len {
        mp + 8192
    } else {
        len
    }
}

/// The link near a download-button marker: the last double-quoted `href`
/// before the marker, else the last single-quoted one, else the first link
/// of the whole window around it.
pub open spec fn near_button(html: Seq<u8>, marker: Seq<u8>) -> Option<Seq<u8>> {
    match find(html, marker) {
        None => None,
        Some(mp) => {
            let start = window_start(mp);
            let before = html.subrange(start, mp);
            match href_before(before, href_dq(), 34u8) {
                Some(v) => Some(v),
                None => match href_before(before, href_sq(), 39u8) {
                    Some(v) => Some(v),
                    None => href_in_area(html.subrange(start, window_end(mp, html.len() as int))),
                },
            }
        },
    }
}

proof fn lemma_first_occurrence(s: Seq<u8>, p: Seq<u8>, at: int)
    requires
        occurs_at(s, p, at),
        forall|j: int| 0 <= j < at ==> !occurs_at(s, p, j),
    ensures
        find(s, p) == Some(at),
{
    reveal(find);
    let i = choose|i: int| occurs_at(s, p, i) && forall|j: int| 0 <= j < i ==> !occurs_at(s, p, j);
    if i < at {
        assert(!occurs_at(s, p, i));
    }
    if at < i {
        assert(!occurs_at(s, p, at));
    }
}

proof fn lemma_last_occurrence(s: Seq<u8>, p: Seq<u8>, start: int, end: int, q: int)
    requires
        0 <= start <= q,
        q + p.len() <= end <= s.len(),
        occurs_at(s, p, q),
        forall|r: int| q < r && r + p.len() <= end ==> !occurs_at(s, p, r),
    ensures
        rfind(s.subrange(start, end), p) == Some(q - start),
{
    let before = s.subrange(start, end);
    let k = q - start;
    assert(before.subrange(k, k + p.len()) =~= s.subrange(q, q + p.len()));
    assert(occurs_at(before, p, k));
    assert forall|j: int| k < j implies !occurs_at(before, p, j) by {
        if occurs_at(before, p, j) {
            assert(s.subrange(j + start, j + start + p.len()) =~= before.subrange(j, j + p.len()));
            assert(occurs_at(s, p, j + start));
        }
    }
    reveal(rfind);
    let i = choose|i: int| occurs_at(before, p, i) && forall|j: int| i < j ==> !occurs_at(before, p, j);
    assert(occurs_at(before, p, i) && forall|j: int| i < j ==> !occurs_at(before, p, j));
    if i < k {
        assert(!occurs_at(before, p, k));
    }
}

/// Law: on a page whose first download-button marker is at `mp`, where the
/// double-quoted `href` closest before the marker (the last one in the
/// window before it, at `q`) holds an `https://` link `v`, that link is the
/// one taken: the button's own link, not an earlier link of the page. Where
/// the marker is the double-quoted download button, it is the page's direct
/// link.
pub proof fn law_button_link_is_closest_href(html: Seq<u8>, marker: Seq<u8>, mp: int, q: int, v: Seq<u8>)
    requires
        occurs_at(html, marker, mp),
        forall|j: int| 0 <= j < mp ==> !occurs_at(html, marker, j),
        window_start(mp) <= q,
        q + href_dq().len() <= mp,
        occurs_at(html, href_dq(), q),
        forall|r: int| q < r && r + href_dq().len() <= mp ==> !occurs_at(html, href_dq(), r),
        quoted_link(html.subrange(q + href_dq().len(), mp), 34u8) == Some(v),
    ensures
        near_button(html, marker) == Some(v),
        marker == button_dq() ==> mediafire_direct(html) == Some(v),
{
    lemma_first_occurrence(html, marker, mp);
    let start = window_start(mp);
    let p = href_dq();
    lemma_last_occurrence(html, p, start, mp, q);
    assert(html.subrange(start, mp).skip(q - start + p.len()) =~= html.subrange(q + p.len(), mp));
}

/// Where a CDN link found at the start of `tail` ends: the first of `"`,
/// `'`, `<`, space and `\` that lies past its ninth byte, else the end.
pub open spec fn sep_cut(tail: Seq<u8>, sep: u8, end: int) -> int {
    match find(tail, seq![sep]) {
        Some(pos) => if pos > 8 && pos < end {
            pos
        } else {
            end
        },
        None => end,
    }
}

/// See `sep_cut`.
pub open spec fn cdn_end(tail: Seq<u8>) -> int {
    sep_cut(
        tail,
        92u8,
        sep_cut(tail, 32u8, sep_cut(tail, 60u8, sep_cut(tail, 39u8, sep_cut(tail, 34u8, tail.len() as int)))),
    )
}

/// The candidate CDN link at the first `marker`, with `\/` unescaped and
/// entities decoded.
pub open spec fn cdn_candidate(html: Seq<u8>, marker: Seq<u8>) -> Option<Seq<u8>> {
    match find(html, marker) {
        None => None,
        Some(st) => {
            let tail = html.skip(st);
            Some(decode_attr(replace(tail.take(cdn_end(tail)), escaped_slash(), seq![47u8])))
        },
    }
}

/// A candidate is kept where it parses as a URL whose host (in ASCII lower
/// case) ends with `.mediafire.com`.
pub open spec fn cdn_host_ok(v: Seq<u8>) -> bool {
    match url_parts(v) {
        Some(p) => match p.1 {
            Some(h) => ends_with(lower_all(h), ".mediafire.com"@),
            None => false,
        },
        None => false,
    }
}

/// The direct download link of a MediaFire landing page: near the
/// double-quoted download button, else near the single-quoted one, else the
/// first plain CDN link, else the first escaped one (each CDN link only
/// where its host is MediaFire's).
pub open spec fn mediafire_direct(html: Seq<u8>) -> Option<Seq<u8>> {
    match near_button(html, button_dq()) {
        Some(v) => Some(v),
        None => match near_button(html, button_sq()) {
            Some(v) => Some(v),
            None => {
                let plain = cdn_candidate(html, cdn_plain());
                let escaped = cdn_candidate(html, cdn_escaped());
                if plain is Some && cdn_host_ok(plain.unwrap()) {
                    plain
                } else if escaped is Some && cdn_host_ok(escaped.unwrap()) {
                    escaped
                } else {
                    None
                }
            },
        },
    }
}

fn near_button_exec(html: &[u8], marker: &[u8]) -> (r: Option<Vec<u8>>)
    ensures
        opt_bytes(r) == near_button(html@, marker@),
{
    let n = html.len();
    let mp = match find_bytes(html, marker) {
        None => {
            return None;
        },
        Some(mp) => mp,
    };
    let start = if mp >= 8192 {
        mp - 8192
    } else {
        0
    };
    let end = if n - mp >= 8192 {
        mp + 8192
    } else {
        n
    };
    let before = crate::packer::sub_bytes(html, start, mp);
    let dq = href_dq_bytes();
    match href_before_exec(before.as_slice(), dq.as_slice(), 34u8) {
        Some(v) => {
            return Some(v);
        },
        None => {},
    }
    let sq = href_sq_bytes();
    match href_before_exec(before.as_slice(), sq.as_slice(), 39u8) {
        Some(v) => {
            return Some(v);
        },
        None => {},
    }
    let area = crate::packer::sub_bytes(html, start, end);
    extract_href_from_area(area.as_slice())
}

fn sep_cut_exec(tail: &[u8], sep: u8, end: usize) -> (r: usize)
    requires
        end <= tail@.len(),
    ensures
        r == sep_cut(tail@, sep, end as int),
        r <= end,
{
    let q = vec![sep];
    assert(q@ =~= seq![sep]);
    match find_bytes(tail, q.as_slice()) {
        Some(pos) => if pos > 8 && pos < end {
            pos
        } else {
            end
        },
        None => end,
    }
}

fn cdn_candidate_exec(html: &[u8], marker: &[u8]) -> (r: Option<Vec<u8>>)
    ensures
        opt_bytes(r) == cdn_candidate(html@, marker@),
{
    let _n = html.len();
    let st = match find_bytes(html, marker) {
        None => {
            return None;
        },
        Some(st) => st,
    };
    let tail = crate::packer::sub_bytes(html, st, html.len());
    assert(tail@ =~= html@.skip(st as int));
    let e = sep_cut_exec(tail.as_slice(), 34u8, tail.len());
    let e = sep_cut_exec(tail.as_slice(), 39u8, e);
    let e = sep_cut_exec(tail.as_slice(), 60u8, e);
    let e = sep_cut_exec(tail.as_slice(), 32u8, e);
    let e = sep_cut_exec(tail.as_slice(), 92u8, e);
    let head = crate::packer::sub_bytes(tail.as_slice(), 0, e);
    assert(head@ =~= tail@.take(e as int));
    let esc = escaped_slash_bytes();
    let slash = vec![47u8];
    assert(slash@ =~= seq![47u8]);
    let unescaped = replace_bytes(head.as_slice(), esc.as_slice(), slash.as_slice());
    Some(decode_html_attribute(unescaped.as_slice()))
}

fn cdn_host_ok_exec(v: &[u8]) -> (r: bool)
    ensures
        r == cdn_host_ok(v@),
{
    match parse_url(v) {
        None => false,
        Some(p) => match &p.host {
            None => false,
            Some(h) => {
                let lower = to_lower(h.as_str());
                let suffix = chars_of(".mediafire.com");
                crate::patch::fat_dat::ends_with_chars(&lower, &suffix)
            },
        },
    }
}

/// See `mediafire_direct`.
pub fn extract_mediafire_direct_url(html: &[u8]) -> (r: Option<Vec<u8>>)
    ensures
        opt_bytes(r) == mediafire_direct(html@),
{
    let m1 = button_dq_bytes();
    match near_button_exec(html, m1.as_slice()) {
        Some(v) => {
            return Some(v);
        },
        None => {},
    }
    let m2 = button_sq_bytes();
    match near_button_exec(html, m2.as_slice()) {
        Some(v) => {
            return Some(v);
        },
        None => {},
    }
    let c1 = cdn_plain_bytes();
    let plain = cdn_candidate_exec(html, c1.as_slice());
    let c2 = cdn_escaped_bytes();
    let escaped = cdn_candidate_exec(html, c2.as_slice());
    match plain {
        Some(v) => {
            if cdn_host_ok_exec(v.as_slice()) {
                return Some(v);
            }
        },
        None => {},
    }
    match escaped {
        Some(v) => {
            if cdn_host_ok_exec(v.as_slice()) {
                return Some(v);
            }
        },
        None => {},
    }
    None
}

/// The cache file of an archive is named by its SHA-256, in lower case,
/// with `.zip`; anything but 64 hex digits is refused.
pub open spec fn cache_name(sha256: Seq<char>) -> Option<Seq<char>> {
    if sha256.len() == 64 && forall|i: int| 0 <= i < 64 ==> is_hex_digit(#[trigger] sha256[i]) {
        Some(lower_all(sha256) + ".zip"@)
    } else {
        None
    }
}

/// See `cache_name`: the file name inside the cache folder, or an
/// `Integrity` error.
pub fn cache_path(sha256: &str) -> (r: Result<String, LoaderError>)
    ensures
        match cache_name(sha256@) {
            Some(n) => r matches Ok(p) && p@ == n,
            None => (r matches Err(LoaderError::Integrity(m)) && m@ == "Archive SHA-256 bicimi gecersiz"@),
        },
{
    let lower = to_lower(sha256);
    let mut ok = lower.len() == 64;
    let mut i: usize = 0;
    while i < lower.len()
        invariant
            i <= lower@.len(),
            lower@ == lower_all(sha256@),
            ok == (lower@.len() == 64 && forall|j: int| 0 <= j < i ==> is_hex_digit(#[trigger] sha256@[j])),
        decreases lower@.len() - i,
    {
        let c = lower[i];
        if !(('0' <= c && c <= '9') || ('a' <= c && c <= 'f')) {
            ok = false;
            proof {
                assert(!is_hex_digit(sha256@[i as int]));
            }
        }
        i = i + 1;
    }
    if !ok {
        return Err(LoaderError::Integrity("Archive SHA-256 bicimi gecersiz".to_owned()));
    }
    let name = string_from(lower.as_slice());
    Ok(join_str(name.as_str(), ".zip"))
}

/// The first bytes of a partial download look like a ZIP archive: `PK`
/// then 3 4, 5 6 or 7 8. `head` holds the first four bytes of the file, or
/// nothing where they could not be read.
pub open spec fn zip_signature(head: Seq<u8>) -> bool {
    &&& head.len() >= 4
    &&& head[0] == 80u8
    &&& head[1] == 75u8
    &&& (head[2] == 3u8 && head[3] == 4u8 || head[2] == 5u8 && head[3] == 6u8 || head[2] == 7u8
        && head[3] == 8u8)
}

/// See `zip_signature`.
pub fn partial_cache_looks_like_zip(head: &[u8]) -> (r: bool)
    ensures
        r == zip_signature(head@),
{
    if head.len() < 4 {
        return false;
    }
    head[0] == 80u8 && head[1] == 75u8 && ((head[2] == 3u8 && head[3] == 4u8) || (head[2] == 5u8
        && head[3] == 6u8) || (head[2] == 7u8 && head[3] == 8u8))
}

/// What to do with what is already in the cache file.
#[derive(Clone, Copy, Debug, PartialEq, Eq, Structural)]
pub enum CachedCopy {
    /// Nothing is there.
    Absent,
    /// It has the archive's size: hash it, and use it where the hash agrees.
    Verify,
    /// It is larger than the archive: remove it.
    Discard,
    /// A shorter file: perhaps an interrupted download.
    Partial(u64),
}

/// See `CachedCopy`; `len` is the cache file's size, `None` where there is
/// no file.
pub fn cached_copy(len: Option<u64>, expected_size: u64) -> (r: CachedCopy)
    ensures
        r == match len {
            None => CachedCopy::Absent,
            Some(l) => if l == expected_size {
                CachedCopy::Verify
            } else if l > expected_size {
                CachedCopy::Discard
            } else {
                CachedCopy::Partial(l)
            },
        },
{
    match len {
        None => CachedCopy::Absent,
        Some(l) => if l == expected_size {
            CachedCopy::Verify
        } else if l > expected_size {
            CachedCopy::Discard
        } else {
            CachedCopy::Partial(l)
        },
    }
}

/// The offset a download resumes from: the partial file's size (at most the
/// archive's), or 0 where a partial file does not start like a ZIP (it is
/// then removed and downloaded again).
pub open spec fn resume_from(partial: u64, expected_size: u64, looks_like_zip: bool) -> u64 {
    let existing = if partial < expected_size {
        partial
    } else {
        expected_size
    };
    if 0 < existing < expected_size && !looks_like_zip {
        0
    } else {
        existing
    }
}

/// See `resume_from`.
pub fn resume_offset(partial: u64, expected_size: u64, looks_like_zip: bool) -> (r: u64)
    ensures
        r == resume_from(partial, expected_size, looks_like_zip),
{
    let existing = if partial < expected_size {
        partial
    } else {
        expected_size
    };
    if existing > 0 && existing < expected_size && !looks_like_zip {
        0
    } else {
        existing
    }
}

/// The `Range` header of a resumed download: `bytes=<existing>-` where part
/// of the archive is already there.
pub fn range_header(existing: u64, expected_size: u64) -> (r: Option<String>)
    ensures
        match r {
            Some(h) => 0 < existing < expected_size && h@ == "bytes="@ + dec_chars(existing as nat)
                + "-"@,
            None => !(0 < existing < expected_size),
        },
{
    if existing > 0 && existing < expected_size {
        let n = decimal(existing);
        let a = join_str("bytes=", n.as_str());
        Some(join_str(a.as_str(), "-"))
    } else {
        None
    }
}

/// The server answered with an HTML page: refused (it is a landing or
/// protection page, not the archive).
pub open spec fn html_answer(content_type: Option<String>) -> bool {
    match content_type {
        Some(t) => contains_chars(lower_all(t@), "text/html"@),
        None => false,
    }
}

/// See `html_answer`: an `Integrity` error for an HTML answer.
pub fn check_content_type(content_type: &Option<String>) -> (r: Result<(), LoaderError>)
    ensures
        r is Ok <==> !html_answer(*content_type),
        r matches Err(e) ==> (e matches LoaderError::Integrity(m) && m@ == "İndirme sunucusu arşiv yerine HTML sayfası döndürdü. MediaFire doğrudan dosya bağlantısı alınamadı."@),
{
    match content_type {
        None => Ok(()),
        Some(t) => {
            let lower = to_lower(t.as_str());
            let html = chars_of("text/html");
            if contains_in(&lower, &html) {
                Err(
                    LoaderError::Integrity(
                        "İndirme sunucusu arşiv yerine HTML sayfası döndürdü. MediaFire doğrudan dosya bağlantısı alınamadı.".to_owned(),
                    ),
                )
            } else {
                Ok(())
            }
        },
    }
}

/// A download resumes only where part of the archive was there and the
/// server answered 206 Partial Content.
pub fn is_resumed(existing: u64, status: u16) -> (r: bool)
    ensures
        r == (existing > 0 && status == 206),
{
    existing > 0 && status == 206
}

/// The message of a size mismatch: the expected size, then what `who`
/// (the server, or the transfer) gave.
pub open spec fn size_mismatch_text(expected_size: u64, who: Seq<char>, got: u64) -> Seq<char> {
    "İndirilen dosya boyutu uyuşmuyor. Beklenen: "@ + dec_chars(expected_size as nat) + " bayt, "@ + who
        + ": "@ + dec_chars(got as nat) + " bayt"@
}

fn size_mismatch(expected_size: u64, who: &str, got: u64) -> (r: LoaderError)
    ensures
        r matches LoaderError::Integrity(m) && m@ == size_mismatch_text(expected_size, who@, got),
{
    proof {
        reveal_strlit("İndirilen dosya boyutu uyuşmuyor. Beklenen: ");
        reveal_strlit(" bayt, ");
        reveal_strlit(": ");
        reveal_strlit(" bayt");
    }
    let a = join_str("İndirilen dosya boyutu uyuşmuyor. Beklenen: ", decimal(expected_size).as_str());
    let b = join_str(a.as_str(), " bayt, ");
    let c = join_str(b.as_str(), who);
    let d = join_str(c.as_str(), ": ");
    let e = join_str(d.as_str(), decimal(got).as_str());
    LoaderError::Integrity(join_str(e.as_str(), " bayt"))
}

/// A fresh download whose announced length is not the archive's size is
/// refused before anything is written.
pub fn check_announced_length(resumed: bool, length: Option<u64>, expected_size: u64) -> (r: Result<
    (),
    LoaderError,
>)
    ensures
        r is Ok <==> resumed || match length {
            Some(l) => l == expected_size,
            None => true,
        },
        r matches Err(e) ==> (length matches Some(l) && e matches LoaderError::Integrity(m) && m@
            == size_mismatch_text(expected_size, "sunucu"@, l)),
{
    if !resumed {
        match length {
            Some(l) => if l != expected_size {
                return Err(size_mismatch(expected_size, "sunucu", l));
            },
            None => {},
        }
    }
    Ok(())
}

/// The download's share of the install progress: half of the bar, by the
/// bytes received (the product saturating, a zero size counted as one).
pub open spec fn download_share(downloaded: u64, expected_size: u64) -> int {
    let scaled = if downloaded * 50 > u64::MAX {
        u64::MAX as int
    } else {
        downloaded * 50
    };
    let size = if expected_size == 0 {
        1
    } else {
        expected_size as int
    };
    if scaled / size < 50 {
        scaled / size
    } else {
        50
    }
}

/// See `download_share`.
pub fn download_percent(downloaded: u64, expected_size: u64) -> (r: u8)
    ensures
        r == download_share(downloaded, expected_size),
{
    let scaled = match downloaded.checked_mul(50) {
        Some(v) => v,
        None => u64::MAX,
    };
    let size = if expected_size == 0 {
        1
    } else {
        expected_size
    };
    let q = scaled / size;
    if q < 50 {
        q as u8
    } else {
        50
    }
}

/// After the transfer: the bytes received must be the archive's size.
pub fn check_downloaded_size(downloaded: u64, expected_size: u64) -> (r: Result<(), LoaderError>)
    ensures
        r is Ok <==> downloaded == expected_size,
        r matches Err(e) ==> (e matches LoaderError::Integrity(m) && m@ == size_mismatch_text(
            expected_size,
            "indirilen"@,
            downloaded,
        )),
{
    if downloaded != expected_size {
        return Err(size_mismatch(expected_size, "indirilen", downloaded));
    }
    Ok(())
}

/// Checks a finished download against the archive's expected hash, given the
/// hasher that was fed the downloaded file: refused, with the integrity
/// error, unless the hexadecimal SHA-256 of what was fed matches `expected`
/// regardless of case.
pub fn check_download_digest(fed: Sha256State, expected: &str) -> (r: Result<(), LoaderError>)
    ensures
        r is Ok <==> eq_ignore_case(digest_hex(fed.fed()), expected@),
        r matches Err(e) ==> (e matches LoaderError::Integrity(m) && m@
            == "İndirilen yama dosyasının bütünlüğü doğrulanamadı."@),
{
    let actual = fed.finish_hex();
    check_downloaded_hash(actual.as_str(), expected)
}


/// ... and its SHA-256 (hex, any case) the manifest's.
pub fn check_downloaded_hash(actual: &str, expected: &str) -> (r: Result<(), LoaderError>)
    ensures
        r is Ok <==> eq_ignore_case(actual@, expected@),
        r matches Err(e) ==> (e matches LoaderError::Integrity(m) && m@
            == "İndirilen yama dosyasının bütünlüğü doğrulanamadı."@),
{
    if !str_eq_ignore_case(actual, expected) {
        return Err(
            LoaderError::Integrity(
                "İndirilen yama dosyasının bütünlüğü doğrulanamadı.".to_owned(),
            ),
        );
    }
    Ok(())
}

/// Whether a redirect is followed: not to a URL that fails the public
/// HTTPS check (where that check applies), and not after 8 redirects.
pub fn follow_redirect(https_only: bool, target_ok: bool, previous: usize) -> (r: bool)
    ensures
        r == (!(https_only && !target_ok) && previous < 8),
{
    if https_only && !target_ok {
        false
    } else if previous >= 8 {
        false
    } else {
        true
    }
}

/// Downloads must be public HTTPS, except from `http://127.0.0.1` in a
/// debug build.
pub fn https_only_for(url: &str, debug_build: bool) -> (r: bool)
    ensures
        r == !(debug_build && crate::text::starts_with(url@, "http://127.0.0.1"@)),
{
    if !debug_build {
        return true;
    }
    let v = chars_of(url);
    let p = chars_of("http://127.0.0.1");
    if p.len() > v.len() {
        return true;
    }
    !crate::text::range_eq(&v, 0, p.len(), &p)
}

/// What a refused download address is answered.
pub open spec fn refusal_message(r: UrlRefusal) -> Seq<char> {
    match r {
        UrlRefusal::NotHttps => "Yama indirme adresi HTTPS olmalıdır"@,
        UrlRefusal::NoHost => "İndirme adresinde host yok"@,
        UrlRefusal::LocalName => "Yerel ağ indirme adresi reddedildi"@,
        UrlRefusal::PrivateAddress => "Private/yerel IP indirme adresi reddedildi"@,
    }
}

/// See `refusal_message`.
pub fn refusal_text(r: UrlRefusal) -> (t: String)
    ensures
        t@ == refusal_message(r),
{
    match r {
        UrlRefusal::NotHttps => "Yama indirme adresi HTTPS olmalıdır".to_owned(),
        UrlRefusal::NoHost => "İndirme adresinde host yok".to_owned(),
        UrlRefusal::LocalName => "Yerel ağ indirme adresi reddedildi".to_owned(),
        UrlRefusal::PrivateAddress => "Private/yerel IP indirme adresi reddedildi".to_owned(),
    }
}

/// Where a MediaFire landing page's direct link leads, checked: the link
/// (see `mediafire_direct`) must exist, parse, and (where HTTPS is enforced)
/// pass the public HTTPS check.
pub fn resolve_from_page(html: &[u8], https_only: bool) -> (r: Result<(Vec<u8>, UrlParts), LoaderError>)
    ensures
        match mediafire_direct(html@) {
            None => r matches Err(LoaderError::Other(m)) && m@
                == "MediaFire doğrudan indirme bağlantısı çözülemedi. MediaFire sayfa yapısı değişmiş olabilir."@,
            Some(v) => match url_parts(v) {
                None => r matches Err(LoaderError::Other(m)) && m@
                    == "MediaFire indirme bağlantısı geçersiz"@,
                Some(p) => if https_only && url_refusal(p) is Some {
                    r matches Err(LoaderError::Other(m)) && m@ == refusal_message(url_refusal(p).unwrap())
                } else {
                    r matches Ok((link, parts)) && link@ == v && parts_view(parts) == p
                },
            },
        },
{
    let direct = match extract_mediafire_direct_url(html) {
        None => {
            return Err(
                LoaderError::Other(
                    "MediaFire doğrudan indirme bağlantısı çözülemedi. MediaFire sayfa yapısı değişmiş olabilir.".to_owned(),
                ),
            );
        },
        Some(d) => d,
    };
    let parsed = match parse_url(direct.as_slice()) {
        None => {
            return Err(LoaderError::Other("MediaFire indirme bağlantısı geçersiz".to_owned()));
        },
        Some(p) => p,
    };
    if https_only {
        match validate_public_https_url(&parsed) {
            Ok(()) => {},
            Err(why) => {
                return Err(LoaderError::Other(refusal_text(why)));
            },
        }
    }
    Ok((direct, parsed))
}

/// Law: the cache is keyed by the archive hash. Two archives share a cache
/// file only when their SHA-256 values are the same (ASCII case ignored),
/// so a different patch never lands on another's partial download.
pub proof fn law_cache_names_distinct(a: Seq<char>, b: Seq<char>)
    requires
        cache_name(a) is Some,
        cache_name(b) is Some,
        cache_name(a) == cache_name(b),
    ensures
        lower_all(a) == lower_all(b),
        eq_ignore_case(a, b),
{
    let x = lower_all(a) + ".zip"@;
    let y = lower_all(b) + ".zip"@;
    assert(x == y);
    assert(lower_all(a) =~= x.take(64));
    assert(lower_all(b) =~= y.take(64));
    assert forall|i: int| 0 <= i < a.len() implies lower_code(a[i]) == lower_code(b[i]) by {
        assert(lower_all(a)[i] == lower_all(b)[i]);
        assert(lower_char(a[i]) == lower_char(b[i]));
    }
}

} // verus!
