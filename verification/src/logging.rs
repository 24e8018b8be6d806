//! What goes into the loader's log: a `[REDACTED] ` marker is put after each
//! `Bearer ` (the text after it is kept as it was) and a message is cut to
//! 1200 characters; client log levels are normalised.
use crate::text::{chars_of, str_eq, string_from};
use vstd::prelude::*;

verus! {

/// `s` with every `Bearer ` (left to right) followed by `[REDACTED] `.
pub open spec fn redacted(s: Seq<char>) -> Seq<char>
    decreases s.len(),
{
    if s.len() >= 7 && s.take(7) == "Bearer "@ {
        "Bearer [REDACTED] "@ + redacted(s.skip(7))
    } else if s.len() == 0 {
        s
    } else {
        seq![s[0]] + redacted(s.drop_first())
    }
}

/// The logged form of a message: redacted, then at most 1200 characters.
pub open spec fn clean_message(s: Seq<char>) -> Seq<char> {
    let r = redacted(s);
    if r.len() <= 1200 {
        r
    } else {
        r.take(1200)
    }
}

/// See `clean_message`.
pub fn clean(message: &str) -> (r: String)
    ensures
        r@ == clean_message(message@),
{
    let v = chars_of(message);
    let b = chars_of("Bearer ");
    let masked = chars_of("Bearer [REDACTED] ");
    let mut out: Vec<char> = Vec::new();
    let mut i: usize = 0;
    assert(v@.skip(0) =~= v@);
    while i < v.len()
        invariant
            i <= v@.len(),
            v@ == message@,
            b@ == "Bearer "@,
            masked@ == "Bearer [REDACTED] "@,
            out@ + redacted(v@.skip(i as int)) == redacted(message@),
        decreases v@.len() - i,
    {
        let ghost rest = v@.skip(i as int);
        let hit = v.len() - i >= 7 && crate::text::range_eq(&v, i, i + 7, &b);
        if hit {
            proof {
                assert(rest.take(7) =~= v@.subrange(i as int, i + 7));
                assert(rest.skip(7) =~= v@.skip(i + 7));
                assert(out@ + (masked@ + redacted(rest.skip(7))) =~= (out@ + masked@) + redacted(
                    v@.skip(i + 7),
                ));
            }
            let mut k: usize = 0;
            let ghost start = out@;
            while k < masked.len()
                invariant
                    k <= masked@.len(),
                    out@ == start + masked@.take(k as int),
                decreases masked@.len() - k,
            {
                out.push(masked[k]);
                proof {
                    assert(masked@.take(k + 1) =~= masked@.take(k as int).push(masked@[k as int]));
                }
                k = k + 1;
            }
            proof {
                assert(masked@.take(masked@.len() as int) =~= masked@);
            }
            i = i + 7;
        } else {
            proof {
                if rest.len() >= 7 {
                    assert(rest.take(7) =~= v@.subrange(i as int, i + 7));
                }
                assert(rest.drop_first() =~= v@.skip(i + 1));
                assert(out@ + (seq![rest[0]] + redacted(rest.drop_first())) =~= out@.push(
                    v@[i as int],
                ) + redacted(v@.skip(i + 1)));
            }
            out.push(v[i]);
            i = i + 1;
        }
    }
    proof {
        assert(out@ + redacted(v@.skip(i as int)) =~= out@);
    }
    if out.len() > 1200 {
        let cut = crate::text::slice_vec(&out, 0, 1200);
        string_from(cut.as_slice())
    } else {
        proof {
            assert(out@.subrange(0, out@.len() as int) =~= out@);
        }
        string_from(out.as_slice())
    }
}

/// The levels a client may log at.
pub open spec fn known_level(l: Seq<char>) -> bool {
    l == "debug"@ || l == "info"@ || l == "warning"@ || l == "error"@
}

/// A client's log level where it is a known one, else `info`.
pub fn normalize_level(level: &str) -> (r: String)
    ensures
        r@ == if known_level(level@) {
            level@
        } else {
            "info"@
        },
{
    if str_eq(level, "debug") || str_eq(level, "info") || str_eq(level, "warning") || str_eq(
        level,
        "error",
    ) {
        level.to_owned()
    } else {
        "info".to_owned()
    }
}

/// The fields of one log line: time, level, category and cleaned message.
pub struct LogLine {
    pub time: String,
    pub level: String,
    pub category: String,
    pub message: String,
}

/// The line an event is logged as (see `clean`); `time` is the caller's
/// RFC 3339 timestamp.
pub fn event(time: &str, level: &str, category: &str, message: &str) -> (r: LogLine)
    ensures
        r.time@ == time@,
        r.level@ == level@,
        r.category@ == category@,
        r.message@ == clean_message(message@),
{
    LogLine {
        time: time.to_owned(),
        level: level.to_owned(),
        category: category.to_owned(),
        message: clean(message),
    }
}

} // verus!
