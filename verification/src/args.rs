//! Reading flags and their values from a command line.
use vstd::prelude::*;
use crate::text::{concat, same};

verus! {

/// Index of the first element of `s` that equals `x`.
pub open spec fn first_index(s: Seq<Seq<char>>, x: Seq<char>) -> Option<int> {
    if s.contains(x) {
        Some(
            choose|i: int|
                0 <= i < s.len() && s[i] == x && forall|j: int| 0 <= j < i ==> #[trigger] s[j] != x,
        )
    } else {
        None
    }
}

/// `flag` followed by its value, or `fallback` when `flag` is absent; an
/// error when `flag` is the last argument.
#[verifier::opaque]
pub open spec fn flag_value(args: Seq<Seq<char>>, flag: Seq<char>, fallback: Seq<char>) -> Result<
    Seq<char>,
    Seq<char>,
> {
    match first_index(args, flag) {
        None => Ok(fallback),
        Some(i) => if i + 1 < args.len() {
            Ok(args[i + 1])
        } else {
            Err(flag + " requires a value"@)
        },
    }
}

/// The view of a `Result` of strings.
pub open spec fn text_result(r: Result<String, String>) -> Result<Seq<char>, Seq<char>> {
    match r {
        Ok(s) => Ok(s@),
        Err(e) => Err(e@),
    }
}

pub proof fn lemma_first_index(s: Seq<Seq<char>>, x: Seq<char>, i: int)
    requires
        0 <= i < s.len(),
        s[i] == x,
        forall|j: int| 0 <= j < i ==> s[j] != x,
    ensures
        first_index(s, x) == Some(i),
{
    assert(s.contains(x));
    let k = choose|k: int|
        0 <= k < s.len() && s[k] == x && forall|j: int| 0 <= j < k ==> #[trigger] s[j] != x;
    assert(0 <= k < s.len() && s[k] == x);
    if k < i {
        assert(s[k] != x);
    }
    if i < k {
        assert(s[i] != x);
    }
}

proof fn lemma_first_index_below(s: Seq<Seq<char>>, x: Seq<char>, w: int)
    requires
        0 <= w < s.len(),
        s[w] == x,
    ensures
        first_index(s, x) matches Some(i) && 0 <= i < s.len() && s[i] == x,
    decreases w,
{
    if exists|j: int| 0 <= j < w && s[j] == x {
        let j = choose|j: int| 0 <= j < w && s[j] == x;
        lemma_first_index_below(s, x, j);
    } else {
        lemma_first_index(s, x, w);
    }
}

pub proof fn lemma_first_index_some(s: Seq<Seq<char>>, x: Seq<char>)
    requires
        s.contains(x),
    ensures
        first_index(s, x) matches Some(i) && 0 <= i < s.len() && s[i] == x,
{
    let w = choose|w: int| 0 <= w < s.len() && s[w] == x;
    lemma_first_index_below(s, x, w);
}

/// Index of the first argument equal to `flag`.
pub fn position(args: &[String], flag: &str) -> (r: Option<usize>)
    ensures
        match r {
            Some(i) => first_index(args.deep_view(), flag@) == Some(i as int),
            None => first_index(args.deep_view(), flag@) is None,
        },
        r matches Some(i) ==> i < args.len(),
{
    let ghost a = args.deep_view();
    let mut i: usize = 0;
    while i < args.len()
        invariant
            i <= args.len(),
            a == args.deep_view(),
            a.len() == args.len(),
            forall|j: int| 0 <= j < i ==> a[j] != flag@,
        decreases args.len() - i,
    {
        assert(a[i as int] == args[i as int]@);
        if same(args[i].as_str(), flag) {
            proof {
                lemma_first_index(a, flag@, i as int);
            }
            return Some(i);
        }
        i = i + 1;
    }
    assert(!a.contains(flag@));
    None
}

/// Whether some argument equals `flag`.
pub fn has_flag(args: &[String], flag: &str) -> (r: bool)
    ensures
        r == args.deep_view().contains(flag@),
{
    match position(args, flag) {
        Some(i) => {
            proof {
                let a = args.deep_view();
                assert(a.contains(flag@)) by {
                    if !a.contains(flag@) {
                        assert(first_index(a, flag@) is None);
                    }
                }
            }
            true
        },
        None => {
            proof {
                let a = args.deep_view();
                if a.contains(flag@) {
                    lemma_first_index_some(a, flag@);
                }
            }
            false
        },
    }
}

/// The value that follows `flag`, `fallback` when `flag` is absent, and an
/// error naming `flag` when it is the last argument.
pub fn value(args: &[String], flag: &str, fallback: &str) -> (r: Result<String, String>)
    ensures
        text_result(r) == flag_value(args.deep_view(), flag@, fallback@),
{
    reveal(flag_value);
    match position(args, flag) {
        Some(index) => {
            if index + 1 < args.len() {
                let v = args[index + 1].clone();
                assert(args.deep_view()[index + 1] == args[index + 1 as int]@);
                Ok(v)
            } else {
                Err(concat(flag, " requires a value"))
            }
        },
        None => Ok(fallback.to_owned()),
    }
}

} // verus!
