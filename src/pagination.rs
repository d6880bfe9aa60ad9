use vstd::prelude::*;
use vstd::string::*;

use crate::error::ApiError;

verus! {

/// A range `[start, end)` of positions in a snapshot of the questions.
#[derive(Debug, Clone, Copy, PartialEq, Eq)]
pub struct Pagination {
    pub start: usize,
    pub end: usize,
}

/// Query parameters as (name, value) pairs.
pub open spec fn pairs_view(params: Seq<(String, String)>) -> Seq<(Seq<char>, Seq<char>)> {
    params.map_values(|p: (String, String)| (p.0@, p.1@))
}

/// The value of the first parameter named `name`.
pub open spec fn param_value(params: Seq<(Seq<char>, Seq<char>)>, name: Seq<char>) -> Option<
    Seq<char>,
>
    decreases params.len(),
{
    if params.len() == 0 {
        None
    } else if params[0].0 == name {
        Some(params[0].1)
    } else {
        param_value(params.drop_first(), name)
    }
}

pub open spec fn is_digit(c: char) -> bool {
    '0' <= c && c <= '9'
}

pub open spec fn all_digits(s: Seq<char>) -> bool {
    forall|i: int| 0 <= i < s.len() ==> is_digit(#[trigger] s[i])
}

/// The number that a string of decimal digits writes.
pub open spec fn digits_value(s: Seq<char>) -> nat
    decreases s.len(),
{
    if s.len() == 0 {
        0
    } else {
        digits_value(s.drop_last()) * 10 + (s.last() as nat - '0' as nat) as nat
    }
}

/// The unsigned integer that `s` writes in decimal, with an optional leading
/// `+`, where it fits in a `usize`.
pub open spec fn decimal_value(s: Seq<char>) -> Option<nat> {
    let d = if s.len() > 0 && s[0] == '+' {
        s.drop_first()
    } else {
        s
    };
    if d.len() > 0 && all_digits(d) && digits_value(d) <= usize::MAX {
        Some(digits_value(d))
    } else {
        None
    }
}

/// The range that query parameters ask for, where both bounds are there and
/// are numbers.
pub open spec fn pagination_of(params: Seq<(Seq<char>, Seq<char>)>) -> Option<(nat, nat)> {
    match (param_value(params, "start"@), param_value(params, "end"@)) {
        (Some(s), Some(e)) => match (decimal_value(s), decimal_value(e)) {
            (Some(a), Some(b)) => Some((a, b)),
            _ => None,
        },
        _ => None,
    }
}

proof fn lemma_digits_value_prefix(s: Seq<char>, i: int)
    requires
        0 <= i <= s.len(),
        all_digits(s),
    ensures
        digits_value(s.subrange(0, i)) <= digits_value(s),
    decreases s.len() - i,
{
    if i < s.len() {
        lemma_digits_value_prefix(s, i + 1);
        let p = s.subrange(0, i + 1);
        assert(p.drop_last() =~= s.subrange(0, i));
    } else {
        assert(s.subrange(0, i) =~= s);
    }
}

/// Whether two strings hold the same characters.
pub fn same_text(a: &str, b: &str) -> (r: bool)
    ensures
        r == (a@ == b@),
{
    let n: usize = a.unicode_len();
    let m: usize = b.unicode_len();
    if n != m {
        return false;
    }
    let mut i: usize = 0;
    while i < n
        invariant
            n == a@.len(),
            m == b@.len(),
            n == m,
            i <= n,
            forall|j: int| 0 <= j < i ==> a@[j] == b@[j],
        decreases n - i,
    {
        if a.get_char(i) != b.get_char(i) {
            return false;
        }
        i = i + 1;
    }
    assert(a@ =~= b@);
    true
}

/// Reads an unsigned decimal number that fits in a `usize`.
pub fn parse_decimal(s: &str) -> (r: Option<usize>)
    ensures
        match decimal_value(s@) {
            Some(v) => r == Some(v as usize),
            None => r is None,
        },
{
    let n: usize = s.unicode_len();
    let mut i: usize = 0;
    if n > 0 && s.get_char(0) == '+' {
        i = 1;
    }
    let start: usize = i;
    let ghost d = s@.subrange(start as int, n as int);
    assert(d =~= (if s@.len() > 0 && s@[0] == '+' {
        s@.drop_first()
    } else {
        s@
    }));
    assert(decimal_value(s@) == if d.len() > 0 && all_digits(d) && digits_value(d)
        <= usize::MAX {
        Some(digits_value(d))
    } else {
        None
    });
    if start == n {
        return None;
    }
    let mut acc: usize = 0;
    while i < n
        invariant
            n == s@.len(),
            decimal_value(s@) == if d.len() > 0 && all_digits(d) && digits_value(d)
                <= usize::MAX {
                Some(digits_value(d))
            } else {
                None
            },
            start <= i <= n,
            start < n,
            d == s@.subrange(start as int, n as int),
            all_digits(d.subrange(0, i - start)),
            acc == digits_value(d.subrange(0, i - start)),
        decreases n - i,
    {
        let c = s.get_char(i);
        let ghost k: int = i - start;
        if c < '0' || c > '9' {
            assert(!is_digit(d[k]));
            assert(!all_digits(d));
            return None;
        }
        let digit: usize = (c as u32 - '0' as u32) as usize;
        assert(d.subrange(0, k + 1).drop_last() =~= d.subrange(0, k));
        assert(all_digits(d.subrange(0, k + 1)));
        assert(d.subrange(0, k + 1).last() == c);
        assert(digits_value(d.subrange(0, k + 1)) == acc * 10 + digit);
        if acc > (usize::MAX - digit) / 10 {
            assert(digits_value(d.subrange(0, k + 1)) > usize::MAX) by (nonlinear_arith)
                requires
                    acc > (usize::MAX - digit) / 10,
                    digits_value(d.subrange(0, k + 1)) == acc * 10 + digit,
            ;
            proof {
                if all_digits(d) {
                    lemma_digits_value_prefix(d, k + 1);
                }
            }
            return None;
        }
        assert(acc * 10 + digit <= usize::MAX) by (nonlinear_arith)
            requires
                acc <= (usize::MAX - digit) / 10,
                digit <= 9,
        ;
        acc = acc * 10 + digit;
        i = i + 1;
    }
    assert(d.subrange(0, n - start) =~= d);
    Some(acc)
}

/// The value of the first parameter named `name`.
pub fn find_param<'a>(params: &'a Vec<(String, String)>, name: &str) -> (r: Option<&'a String>)
    ensures
        match r {
            Some(v) => param_value(pairs_view(params@), name@) == Some(v@),
            None => param_value(pairs_view(params@), name@) is None,
        },
{
    let n: usize = params.len();
    let mut i: usize = 0;
    assert(pairs_view(params@).subrange(0, n as int) =~= pairs_view(params@));
    while i < n
        invariant
            n == params@.len(),
            i <= n,
            param_value(pairs_view(params@), name@) == param_value(
                pairs_view(params@).subrange(i as int, n as int),
                name@,
            ),
        decreases n - i,
    {
        let ghost rest = pairs_view(params@).subrange(i as int, n as int);
        assert(rest[0] == (params@[i as int].0@, params@[i as int].1@));
        if same_text(params[i].0.as_str(), name) {
            return Some(&params[i].1);
        }
        assert(rest.drop_first() =~= pairs_view(params@).subrange(i + 1, n as int));
        i = i + 1;
    }
    None
}

/// Reads the range that query parameters ask for: both `start` and `end` must
/// be there and be unsigned numbers.
pub fn extract_pagination(params: &Vec<(String, String)>) -> (r: Result<Pagination, ApiError>)
    ensures
        match pagination_of(pairs_view(params@)) {
            Some((a, b)) => r == Ok::<Pagination, ApiError>(
                Pagination { start: a as usize, end: b as usize },
            ),
            None => r == Err::<Pagination, ApiError>(ApiError::BadQueryParameter),
        },
{
    let start_text = find_param(params, "start");
    let end_text = find_param(params, "end");
    match (start_text, end_text) {
        (Some(s), Some(e)) => match (parse_decimal(s.as_str()), parse_decimal(e.as_str())) {
            (Some(a), Some(b)) => Ok(Pagination { start: a, end: b }),
            _ => Err(ApiError::BadQueryParameter),
        },
        _ => Err(ApiError::BadQueryParameter),
    }
}

} // verus!
