//! Run options: the merged exclude list and the parallel-jobs count.
//!
//! Reading the command line is the embedding program's work; the rules —
//! which exclude fragments every run gets, and which strings are a valid
//! jobs count — are the library's.

use vstd::prelude::*;

verus! {

/// The built-in exclude fragments covering common version-control
/// metadata directories, appended to every run's exclude list.
pub open spec fn default_excludes() -> Seq<Seq<char>> {
    seq!["/.git/"@, "/.svn/"@, "/CVS/"@]
}

/// Make a list of excludes from an optional list of excludes.
///
/// The given fragments, if any, come first; the built-in defaults are
/// appended.
pub fn make_excludes(excludes: Option<Vec<String>>) -> (r: Vec<String>)
    ensures
        r.deep_view() == (match excludes {
            Some(x) => x.deep_view(),
            None => Seq::<Seq<char>>::empty(),
        }) + default_excludes(),
{
    let ghost given = match &excludes {
        Some(x) => x.deep_view(),
        None => Seq::<Seq<char>>::empty(),
    };
    let mut result: Vec<String> = match excludes {
        Some(x) => x,
        None => Vec::new(),
    };
    proof {
        assert(result.deep_view() =~= given);
    }
    let ghost b0 = result.deep_view();
    result.push("/.git/".to_owned());
    proof {
        assert(result.deep_view() =~= b0.push("/.git/"@));
    }
    let ghost b1 = result.deep_view();
    result.push("/.svn/".to_owned());
    proof {
        assert(result.deep_view() =~= b1.push("/.svn/"@));
    }
    let ghost b2 = result.deep_view();
    result.push("/CVS/".to_owned());
    proof {
        assert(result.deep_view() =~= b2.push("/CVS/"@));
        assert(result.deep_view() =~= given + default_excludes());
    }
    result
}

/// A decimal digit.
pub open spec fn is_digit(c: char) -> bool {
    48 <= c as u32 && c as u32 <= 57
}

/// A digit's numeric value.
pub open spec fn digit_val(c: char) -> nat {
    (c as u32 - 48) as nat
}

/// Every character of the sequence is a decimal digit.
pub open spec fn all_digits(s: Seq<char>) -> bool {
    forall|i: int| 0 <= i < s.len() ==> is_digit(s[i])
}

/// The number the digit sequence denotes, most significant digit first.
pub open spec fn digits_val(s: Seq<char>) -> nat
    decreases s.len(),
{
    if s.len() == 0 {
        0
    } else {
        digits_val(s.drop_last()) * 10 + digit_val(s.last())
    }
}

/// The digits of a decimal rendering: an optional leading `+` sign is
/// dropped.
pub open spec fn numeric_body(s: Seq<char>) -> Seq<char> {
    if s.len() > 0 && s[0] == '+' {
        s.drop_first()
    } else {
        s
    }
}

/// Whether the string is a machine-size decimal number: a non-empty digit
/// run after the optional sign, whose value fits.
pub open spec fn parses_as_usize(s: Seq<char>) -> bool {
    &&& numeric_body(s).len() > 0
    &&& all_digits(numeric_body(s))
    &&& digits_val(numeric_body(s)) <= usize::MAX
}

/// The jobs count a string denotes: its decimal value, owed exactly when
/// the string parses and names at least one job.
pub open spec fn spec_jobs(s: Seq<char>) -> Option<usize> {
    if parses_as_usize(s) && digits_val(numeric_body(s)) > 0 {
        Some(digits_val(numeric_body(s)) as usize)
    } else {
        None
    }
}

/// A digit run's value never shrinks when more digits follow.
proof fn lemma_digits_val_prefix(s: Seq<char>, i: int)
    requires
        0 <= i <= s.len(),
    ensures
        digits_val(s.subrange(0, i)) <= digits_val(s),
    decreases s.len() - i,
{
    if i == s.len() {
        assert(s.subrange(0, i) =~= s);
    } else {
        lemma_digits_val_prefix(s.drop_last(), i);
        assert(s.drop_last().subrange(0, i) =~= s.subrange(0, i));
    }
}

/// Parse a jobs parameter.
///
/// Accepts what a machine-size decimal parse accepts — digits after an
/// optional `+`, no overflow — and requires at least one job; everything
/// else is refused.
pub fn parse_jobs(s: &str) -> (r: Option<usize>)
    ensures
        r == spec_jobs(s@),
{
    let n = s.unicode_len();
    if n == 0 {
        return None;
    }
    let start: usize = if s.get_char(0) == '+' {
        1
    } else {
        0
    };
    if start == n {
        return None;
    }
    let ghost body = numeric_body(s@);
    proof {
        assert(body =~= s@.subrange(start as int, n as int));
    }
    let mut val: usize = 0;
    let mut i: usize = start;
    while i < n
        invariant
            n == s@.len(),
            start <= i <= n,
            start < n,
            body == numeric_body(s@),
            body == s@.subrange(start as int, n as int),
            all_digits(s@.subrange(start as int, i as int)),
            val == digits_val(s@.subrange(start as int, i as int)),
        decreases n - i,
    {
        let c = s.get_char(i);
        let u = c as u32;
        if u < 48 || u > 57 {
            proof {
                assert(body[i - start] == s@[i as int]);
                assert(!all_digits(body));
            }
            return None;
        }
        let d = (u - 48) as usize;
        let ghost prefix = s@.subrange(start as int, i as int);
        let ghost grown = s@.subrange(start as int, i + 1 as int);
        proof {
            assert(grown.drop_last() =~= prefix);
            assert(grown.last() == s@[i as int]);
            assert(digits_val(grown) == digits_val(prefix) * 10 + digit_val(s@[i as int]));
        }
        let next = match val.checked_mul(10) {
            Some(v10) => v10.checked_add(d),
            None => None,
        };
        match next {
            None => {
                proof {
                    assert(digits_val(grown) > usize::MAX);
                    assert(body.subrange(0, i + 1 - start as int) =~= grown);
                    lemma_digits_val_prefix(body, i + 1 - start as int);
                }
                return None;
            },
            Some(v) => {
                val = v;
            },
        }
        i += 1;
    }
    proof {
        assert(s@.subrange(start as int, n as int) == body);
    }
    if val > 0 {
        Some(val)
    } else {
        None
    }
}

} // verus!
