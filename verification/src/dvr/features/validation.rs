//! Input validation (`/validate?n=<number>`).

use vstd::prelude::*;
use crate::dvr::{or_default, App, Request, Response};
use crate::text::{all_digits, chars_of, decimal, decimal_string, digits_value, owned, parse_u64, push_str};

verus! {

/// The raw value a request carries (`n`, default `0`).
pub open spec fn raw_number(req: &Request) -> Seq<char> {
    or_default(req.query_spec("n"@), "0"@)
}

/// Ten to the `k`.
pub open spec fn pow10(k: nat) -> nat
    decreases k,
{
    if k == 0 {
        1
    } else {
        10 * pow10((k - 1) as nat)
    }
}

/// A digit string has fewer digits' worth of value than ten to its length.
pub proof fn lemma_digits_value_bound(s: Seq<char>)
    requires
        all_digits(s),
    ensures
        digits_value(s) < pow10(s.len()),
    decreases s.len(),
{
    if s.len() > 0 {
        let t = s.drop_last();
        assert(all_digits(t)) by {
            assert forall|i: int| 0 <= i < t.len() implies crate::text::is_digit(#[trigger] t[i]) by {
                assert(t[i] == s[i]);
            }
        }
        lemma_digits_value_bound(t);
        assert(crate::text::is_digit(s[s.len() - 1]));
        let d = ((s.last() as u32) - 48) as nat;
        assert(d <= 9);
        assert(digits_value(s) == digits_value(t) * 10 + d);
        assert(digits_value(t) * 10 + d < pow10(t.len()) * 10) by (nonlinear_arith)
            requires
                digits_value(t) < pow10(t.len()),
                d <= 9,
        ;
    }
}

/// Ten to the nineteenth fits a `u64`.
proof fn lemma_pow10_19()
    ensures
        pow10(19) == 10000000000000000000,
{
    reveal_with_fuel(pow10, 20);
}

/// What `handle` answers.
pub open spec fn answers(app: &App, req: &Request, r: Response) -> bool {
    &&& ({
                let raw = raw_number(req);
                if raw.len() == 0 || !all_digits(raw) {
                    r.status == 400 && r.body@ == "n must be a non-negative integer"@
                } else if raw.len() > 19 {
                    r.status == 400 && r.body@ == "n too large"@
                } else {
                    r.status == 200 && r.body@ == "n="@ + decimal(digits_value(raw))
                }
            })
}

/// Accepts one to nineteen ASCII digits and echoes the number.
pub fn handle(_app: &App, req: &Request) -> (r: Response)
    ensures
        answers(_app, req, r),
{
    let raw = match req.query_get("n") {
        Some(v) => v,
        None => "0",
    };
    let chars = chars_of(raw);
    let mut i: usize = 0;
    let mut digits = true;
    while i < chars.len()
        invariant
            i <= chars@.len(),
            digits == forall|k: int| 0 <= k < i ==> crate::text::is_digit(#[trigger] chars@[k]),
        decreases chars@.len() - i,
    {
        if !('0' <= chars[i] && chars[i] <= '9') {
            digits = false;
        }
        i += 1;
    }
    if chars.len() == 0 || !digits {
        return Response::err(400, owned("n must be a non-negative integer"));
    }
    if chars.len() > 19 {
        return Response::err(400, owned("n too large"));
    }
    proof {
        lemma_digits_value_bound(chars@);
        lemma_pow10_19();
        let k = chars@.len();
        assert(pow10(k) <= pow10(19)) by {
            lemma_pow10_mono(k, 19);
        }
        assert(chars@[0] != '+');
        assert(crate::text::unsigned_digits(chars@) == chars@);
    }
    let n: u64 = parse_u64(&chars).unwrap();
    let mut out = owned("n=");
    push_str(&mut out, decimal_string(n).as_str());
    Response::ok(out)
}

/// Powers of ten grow with the exponent.
pub proof fn lemma_pow10_mono(a: nat, b: nat)
    requires
        a <= b,
    ensures
        pow10(a) <= pow10(b),
    decreases b,
{
    if a < b {
        lemma_pow10_mono(a, (b - 1) as nat);
    }
}

} // verus!
