//! ZIP extraction limits: every entry name must be a safe relative path,
//! symbolic links are refused, and the entry count and unpacked size are
//! capped.
use crate::error::LoaderError;
use crate::security::path::{forward_chars, relative_ok, unify, validate_relative};
use crate::text::{chars_of, join_str, string_from};
use vstd::prelude::*;

verus! {

/// At most this many entries.
pub const MAX_FILES: usize = 100000;

/// At most this many bytes unpacked (20 GiB).
pub const MAX_UNCOMPRESSED: u64 = 21474836480;

/// Refuses an archive with more than `MAX_FILES` entries.
pub fn check_count(entries: usize) -> (r: Result<(), LoaderError>)
    ensures
        r is Ok <==> entries <= MAX_FILES,
        r matches Err(e) ==> (e matches LoaderError::Manifest(m) && m@ == "ZIP dosya sayısı sınırı aşıldı"@),
{
    if entries > MAX_FILES {
        return Err(LoaderError::Manifest("ZIP dosya sayısı sınırı aşıldı".to_owned()));
    }
    Ok(())
}

/// `s` without its trailing `/` characters.
pub open spec fn trim_end_slashes(s: Seq<char>) -> Seq<char>
    decreases s.len(),
{
    if s.len() > 0 && s.last() == '/' {
        trim_end_slashes(s.drop_last())
    } else {
        s
    }
}

/// A Unix mode that marks a symbolic link.
pub open spec fn is_symlink_mode(m: u32) -> bool {
    m & 0o170000 == 0o120000
}

/// The judgement of one entry given the unpacked bytes before it: the name
/// (with `\` read as `/`, trailing `/` dropped) must be a safe relative
/// path, the entry no symbolic link, and the running total within the cap.
pub open spec fn entry_ok(name: Seq<char>, mode: Option<u32>, size: u64, total: u64) -> bool {
    &&& relative_ok(trim_end_slashes(unify(name)))
    &&& !(mode matches Some(m) && is_symlink_mode(m))
    &&& total + size <= MAX_UNCOMPRESSED
}

/// Checks one entry (see `entry_ok`): the relative path to write it to and
/// the new running total, or the refusal (`UnsafePath` for the name or a
/// link, `Manifest` for the size).
pub fn check_entry(name: &str, unix_mode: Option<u32>, size: u64, total: u64) -> (r: Result<
    (String, u64),
    LoaderError,
>)
    ensures
        r is Ok <==> entry_ok(name@, unix_mode, size, total),
        r matches Ok((p, t)) ==> p@ == trim_end_slashes(unify(name@)) && relative_ok(p@) && t
            == total + size,
        !relative_ok(trim_end_slashes(unify(name@))) ==> (r matches Err(LoaderError::UnsafePath(p))
            && p@ == trim_end_slashes(unify(name@))),
        relative_ok(trim_end_slashes(unify(name@))) && (unix_mode matches Some(m)
            && is_symlink_mode(m)) ==> (r matches Err(LoaderError::UnsafePath(p)) && p@
            == "ZIP symlink: "@ + unify(name@)),
        relative_ok(trim_end_slashes(unify(name@))) && !(unix_mode matches Some(m)
            && is_symlink_mode(m)) && r is Err ==> (r matches Err(LoaderError::Manifest(m)) && m@
            == if total + size > u64::MAX {
            "ZIP boyutu taştı"@
        } else {
            "ZIP açılmış boyut sınırı aşıldı"@
        }),
{
    let u = forward_chars(name);
    let mut end = u.len();
    assert(u@.take(end as int) =~= u@);
    while end > 0 && u[end - 1] == '/'
        invariant
            end <= u@.len(),
            u@ == unify(name@),
            trim_end_slashes(u@.take(end as int)) == trim_end_slashes(unify(name@)),
        decreases end,
    {
        proof {
            assert(u@.take(end as int).drop_last() =~= u@.take(end - 1));
        }
        end = end - 1;
    }
    proof {
        assert(u@.take(end as int) =~= u@.subrange(0, end as int));
    }
    let trimmed_v = crate::text::slice_vec(&u, 0, end);
    let trimmed = string_from(trimmed_v.as_slice());
    let relative = match validate_relative(trimmed.as_str()) {
        Ok(p) => p,
        Err(e) => {
            return Err(e);
        },
    };
    let raw = string_from(u.as_slice());
    match unix_mode {
        Some(m) => {
            if m & 0o170000 == 0o120000 {
                proof {
                    reveal_strlit("ZIP symlink: ");
                }
                return Err(LoaderError::UnsafePath(join_str("ZIP symlink: ", raw.as_str())));
            }
        },
        None => {},
    }
    let next = match total.checked_add(size) {
        Some(t) => t,
        None => {
            return Err(LoaderError::Manifest("ZIP boyutu taştı".to_owned()));
        },
    };
    if next > MAX_UNCOMPRESSED {
        return Err(LoaderError::Manifest("ZIP açılmış boyut sınırı aşıldı".to_owned()));
    }
    Ok((relative, next))
}

} // verus!
