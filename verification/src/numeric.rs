//! A verified decimal parser for modloader tokens, matching the standard
//! unsigned integer grammar: an optional leading `+`, then one or more ASCII
//! digits, rejected when the value does not fit in `usize`.

use vstd::prelude::*;
use vstd::arithmetic::div_mod::lemma_fundamental_div_mod;
use vstd::string::StrSliceExecFns;

verus! {

pub open spec fn is_digit(c: char) -> bool {
    48 <= c as u32 <= 57
}

pub open spec fn digit_val(c: char) -> int {
    c as u32 - 48
}

pub open spec fn all_digits(s: Seq<char>) -> bool {
    forall|i: int| 0 <= i < s.len() ==> is_digit(#[trigger] s[i])
}

/// The value of a digit string read most significant digit first.
pub open spec fn digits_value(s: Seq<char>) -> int
    decreases s.len(),
{
    if s.len() == 0 {
        0
    } else {
        digits_value(s.drop_last()) * 10 + digit_val(s.last())
    }
}

/// The token with an optional leading `+` sign removed.
pub open spec fn numeric_body(s: Seq<char>) -> Seq<char> {
    if s.len() > 0 && s[0] == '+' {
        s.subrange(1, s.len() as int)
    } else {
        s
    }
}

/// Whether the token parses as a `usize`: a non-empty digit body whose value
/// fits.
pub open spec fn parse_usize_ok(s: Seq<char>) -> bool {
    let b = numeric_body(s);
    b.len() > 0 && all_digits(b) && digits_value(b) <= usize::MAX
}

proof fn lemma_digits_value_nonneg(s: Seq<char>)
    requires
        all_digits(s),
    ensures
        digits_value(s) >= 0,
    decreases s.len(),
{
    if s.len() > 0 {
        lemma_digits_value_nonneg(s.drop_last());
    }
}

proof fn lemma_digits_prefix_le(s: Seq<char>, j: int)
    requires
        0 <= j <= s.len(),
        all_digits(s),
    ensures
        digits_value(s.subrange(0, j)) <= digits_value(s),
    decreases s.len() - j,
{
    if j == s.len() {
        assert(s.subrange(0, j) =~= s);
    } else {
        let p = s.subrange(0, j);
        let q = s.subrange(0, j + 1);
        assert(q.drop_last() =~= p);
        assert(all_digits(p));
        lemma_digits_value_nonneg(p);
        assert(digits_value(q) == digits_value(p) * 10 + digit_val(q.last()));
        assert(digits_value(p) * 10 >= digits_value(p)) by (nonlinear_arith)
            requires
                digits_value(p) >= 0,
        ;
        lemma_digits_prefix_le(s, j + 1);
    }
}

pub fn parse_usize(s: &str) -> (r: Option<usize>)
    ensures
        r is Some <==> parse_usize_ok(s@),
        r matches Some(v) ==> v as int == digits_value(numeric_body(s@)),
{
    let n: usize = s.unicode_len();
    let mut i: usize = 0;
    if n > 0 && s.get_char(0) == '+' {
        i = 1;
    }
    let ghost off: int = i as int;
    let ghost b: Seq<char> = numeric_body(s@);
    proof {
        assert(b =~= s@.subrange(off, n as int));
    }
    if i == n {
        // empty body: nothing to parse
        return None;
    }
    let mut acc: usize = 0;
    while i < n
        invariant
            off <= i <= n,
            n == s@.len(),
            n > off,
            b == s@.subrange(off, n as int),
            b == numeric_body(s@),
            b.len() == n - off,
            all_digits(b.subrange(0, i - off)),
            acc as int == digits_value(b.subrange(0, i - off)),
        decreases n - i,
    {
        let c: char = s.get_char(i);
        let u: u32 = c as u32;
        proof {
            assert(s@.subrange(off, n as int)[i - off] == s@[i as int]);
            assert(b[i - off] == s@[i as int]);
        }
        if u < 48 || u > 57 {
            proof {
                assert(!is_digit(b[i - off]));
                assert(!all_digits(b));
            }
            return None;
        }
        let d: usize = (u - 48) as usize;
        let q: usize = usize::MAX / 10;
        let m: usize = usize::MAX % 10;
        proof {
            lemma_fundamental_div_mod(usize::MAX as int, 10);
        }
        if acc > q || (acc == q && d > m) {
            proof {
                let p = b.subrange(0, i - off + 1);
                assert(p.drop_last() =~= b.subrange(0, i - off));
                assert(p.last() == b[i - off]);
                assert(digits_value(p) == acc * 10 + d);
                assert(digits_value(p) > usize::MAX);
                if all_digits(b) {
                    lemma_digits_prefix_le(b, i - off + 1);
                    assert(digits_value(b) > usize::MAX);
                }
            }
            return None;
        }
        proof {
            assert(acc * 10 + d <= usize::MAX);
        }
        acc = acc * 10 + d;
        proof {
            let p = b.subrange(0, i - off + 1);
            assert(p.drop_last() =~= b.subrange(0, i - off));
            assert(p.last() == b[i - off]);
        }
        i = i + 1;
    }
    proof {
        assert(b.subrange(0, n - off) =~= b);
    }
    Some(acc)
}

} // verus!
