//! Where the loader keeps its data, and the recovery mirror of backup files:
//! a copy of every backup file under `recovery\backups`, used where the
//! backup itself is gone.
use crate::emulator::join_path;
use crate::error::LoaderError;
use crate::security::path::{components, components_of};
use crate::text::{views, drop_empty, join_str};
use vstd::prelude::*;

verus! {

/// The components of a path that name something: `.` is dropped, as
/// `Path::components` drops it inside a path.
pub open spec fn named(p: Seq<Seq<char>>) -> Seq<Seq<char>>
    decreases p.len(),
{
    if p.len() == 0 {
        p
    } else {
        let r = named(p.drop_last());
        if p.last() == "."@ {
            r
        } else {
            r.push(p.last())
        }
    }
}

/// The path's components (see `named`).
pub open spec fn parts(s: Seq<char>) -> Seq<Seq<char>> {
    named(components(s))
}

/// `base` with the parts joined on in turn.
pub open spec fn join_all(base: Seq<char>, rel: Seq<Seq<char>>) -> Seq<char>
    decreases rel.len(),
{
    if rel.len() == 0 {
        base
    } else {
        join_path(join_all(base, rel.drop_last()), rel.last())
    }
}

/// Where the recovery copy of a file under the backups folder lives: the
/// same relative path under the recovery folder. Nothing for a path outside
/// the backups folder, for the folder itself, or for a path with a `..`
/// component.
pub open spec fn recovery_for(backups: Seq<char>, recovery: Seq<char>, path: Seq<char>) -> Option<
    Seq<char>,
> {
    let b = parts(backups);
    let p = parts(path);
    if b.len() <= p.len() && p.take(b.len() as int) == b {
        let rel = p.skip(b.len() as int);
        if rel.len() == 0 || rel.contains(".."@) {
            None
        } else {
            Some(join_all(recovery, rel))
        }
    } else {
        None
    }
}

fn parts_of(s: &str) -> (r: Vec<Vec<char>>)
    ensures
        views(r@) == parts(s@),
{
    let c = components_of(s);
    let ghost cv = views(c@);
    let mut out: Vec<Vec<char>> = Vec::new();
    let dot = crate::text::chars_of(".");
    let mut i: usize = 0;
    while i < c.len()
        invariant
            i <= c@.len(),
            cv == views(c@),
            cv == components(s@),
            dot@ == "."@,
            views(out@) == named(cv.take(i as int)),
        decreases c@.len() - i,
    {
        proof {
            assert(cv.take(i + 1).drop_last() =~= cv.take(i as int));
            assert(cv.take(i + 1).last() == c@[i as int]@);
        }
        let is_dot = crate::text::range_eq(&c[i], 0, c[i].len(), &dot);
        proof {
            assert(c@[i as int]@.subrange(0, c@[i as int]@.len() as int) =~= c@[i as int]@);
        }
        if !is_dot {
            let x = crate::text::slice_vec(&c[i], 0, c[i].len());
            let ghost before = out@;
            out.push(x);
            proof {
                assert(views(out@) =~= views(before).push(x@));
            }
        }
        i = i + 1;
    }
    assert(cv.take(c@.len() as int) =~= cv);
    out
}

fn vec_eq(a: &Vec<char>, b: &Vec<char>) -> (r: bool)
    ensures
        r == (a@ == b@),
{
    let r = crate::text::range_eq(a, 0, a.len(), b);
    assert(a@.subrange(0, a@.len() as int) =~= a@);
    r
}

/// See `recovery_for`; the folders are given as full paths.
pub fn recovery_path_for_backup(backups_root: &str, recovery_root: &str, path: &str) -> (r: Option<String>)
    ensures
        crate::emulator::opt_view(r) == recovery_for(backups_root@, recovery_root@, path@),
{
    let b = parts_of(backups_root);
    let p = parts_of(path);
    let ghost bv = views(b@);
    let ghost pv = views(p@);
    if b.len() > p.len() {
        return None;
    }
    let mut k: usize = 0;
    while k < b.len()
        invariant
            k <= b@.len() <= p@.len(),
            bv == views(b@),
            pv == views(p@),
            bv == parts(backups_root@),
            pv == parts(path@),
            forall|j: int| 0 <= j < k ==> bv[j] == pv[j],
        decreases b@.len() - k,
    {
        if !vec_eq(&b[k], &p[k]) {
            proof {
                assert(pv.take(bv.len() as int)[k as int] != bv[k as int]);
            }
            return None;
        }
        k = k + 1;
    }
    proof {
        assert(pv.take(bv.len() as int) =~= bv);
    }
    let ghost rel = pv.skip(bv.len() as int);
    if b.len() == p.len() {
        return None;
    }
    let dots = crate::text::chars_of("..");
    let mut out = recovery_root.to_owned();
    let mut i = b.len();
    assert(rel.take(0) =~= Seq::<Seq<char>>::empty());
    while i < p.len()
        invariant
            b@.len() <= i <= p@.len(),
            bv == views(b@),
            pv == views(p@),
            bv == parts(backups_root@),
            pv == parts(path@),
            pv.take(bv.len() as int) == bv,
            rel == pv.skip(bv.len() as int),
            dots@ == ".."@,
            out@ == join_all(recovery_root@, rel.take(i - b@.len())),
            forall|j: int| 0 <= j < i - b@.len() ==> rel[j] != ".."@,
        decreases p@.len() - i,
    {
        proof {
            assert(rel[i - b@.len()] == p@[i as int]@);
        }
        if vec_eq(&p[i], &dots) {
            proof {
                assert(rel[i - b@.len()] == ".."@);
                assert(rel.contains(".."@));
            }
            return None;
        }
        let piece = crate::text::string_from(p[i].as_slice());
        proof {
            assert(rel.take(i - b@.len() + 1).drop_last() =~= rel.take(i - b@.len()));
            assert(rel.take(i - b@.len() + 1).last() == piece@);
        }
        out = crate::emulator::join_path_exec(out.as_str(), piece.as_str());
        i = i + 1;
    }
    proof {
        assert(rel.take(rel.len() as int) =~= rel);
        assert(!rel.contains(".."@));
    }
    Some(out)
}

/// What a file copy reads from and where it also mirrors to.
pub struct CopyPlan {
    /// The file actually read: the source, or its recovery copy where the
    /// source is gone.
    pub from: String,
    /// The recovery copy to write as well (for a copy into the backups
    /// folder), unless it is the file read.
    pub mirror: Option<String>,
}

/// The decision of a file copy: a missing source is read from its recovery
/// copy where it has one and that exists (else a `Conflict`); a missing
/// source with no recovery place is an `Other` error. A copy whose
/// destination has a recovery place is mirrored there, unless that is
/// where it reads from.
pub fn copy_file(
    source: &str,
    source_is_file: bool,
    source_recovery: Option<String>,
    recovery_is_file: bool,
    destination_recovery: Option<String>,
) -> (r: Result<CopyPlan, LoaderError>)
    ensures
        source_is_file ==> (r matches Ok(plan) && plan.from@ == source@),
        !source_is_file ==> match source_recovery {
            None => r matches Err(LoaderError::Other(m)) && m@ == "Kaynak dosya bulunamadı: "@ + source@,
            Some(rec) => if recovery_is_file {
                r matches Ok(plan) && plan.from@ == rec@
            } else {
                r matches Err(LoaderError::Conflict(m)) && m@ == "Geri yükleme yedeği bulunamadı: "@
                    + source@ + ". Kurtarma kopyası da mevcut değil."@
            },
        },
        r matches Ok(plan) ==> match destination_recovery {
            None => plan.mirror is None,
            Some(d) => if parts(d@) == parts(plan.from@) {
                plan.mirror is None
            } else {
                plan.mirror == Some(d)
            },
        },
{
    proof {
        reveal_strlit("Kaynak dosya bulunamadı: ");
        reveal_strlit("Geri yükleme yedeği bulunamadı: ");
        reveal_strlit(". Kurtarma kopyası da mevcut değil.");
    }
    let from = if source_is_file {
        source.to_owned()
    } else {
        match source_recovery {
            None => {
                return Err(LoaderError::Other(join_str("Kaynak dosya bulunamadı: ", source)));
            },
            Some(rec) => {
                if recovery_is_file {
                    rec
                } else {
                    let head = join_str("Geri yükleme yedeği bulunamadı: ", source);
                    let text = join_str(head.as_str(), ". Kurtarma kopyası da mevcut değil.");
                    return Err(LoaderError::Conflict(text));
                }
            },
        }
    };
    let mirror = match destination_recovery {
        None => None,
        Some(d) => {
            if same_path(d.as_str(), from.as_str()) {
                None
            } else {
                Some(d)
            }
        },
    };
    Ok(CopyPlan { from, mirror })
}

/// The backups folder under the data root.
pub fn backups_root(data_root: &str) -> (r: String)
    ensures
        r@ == join_path(data_root@, "backups"@),
{
    crate::emulator::join_path_exec(data_root, "backups")
}

/// The recovery mirror of the backups folder under the data root.
pub fn recovery_backups_root(data_root: &str) -> (r: String)
    ensures
        r@ == join_path(join_path(data_root@, "recovery"@), "backups"@),
{
    let a = crate::emulator::join_path_exec(data_root, "recovery");
    crate::emulator::join_path_exec(a.as_str(), "backups")
}

/// Whether two paths name the same place component by component (as
/// `Path` equality does).
pub fn same_path(a: &str, b: &str) -> (r: bool)
    ensures
        r == (parts(a@) == parts(b@)),
{
    let x = parts_of(a);
    let y = parts_of(b);
    if x.len() != y.len() {
        proof {
            assert(views(x@).len() != views(y@).len());
        }
        return false;
    }
    let mut k: usize = 0;
    while k < x.len()
        invariant
            k <= x@.len(),
            x@.len() == y@.len(),
            views(x@) == parts(a@),
            views(y@) == parts(b@),
            forall|j: int| 0 <= j < k ==> x@[j]@ == y@[j]@,
        decreases x@.len() - k,
    {
        if !vec_eq(&x[k], &y[k]) {
            proof {
                assert(views(x@)[k as int] != views(y@)[k as int]);
            }
            return false;
        }
        k = k + 1;
    }
    assert(views(x@) =~= views(y@));
    true
}

} // verus!
