use vstd::prelude::*;
use rand::Rng;
use crate::text::{decimal_spec, decimal_string, digit_char};

verus! {

/// Draws a uniformly random integer in `lo..=hi` with `rand::thread_rng().gen_range`.
/// Claims only that the value lies in the range (the call panics on an empty range, which
/// `requires` rules out).
#[verifier::external_body]
fn random_in_range(lo: u32, hi: u32) -> (r: u32)
    requires
        lo <= hi,
    ensures
        lo <= r <= hi,
{
    rand::thread_rng().gen_range(lo..=hi)
}

/// `10^k`.
pub open spec fn pow10(k: nat) -> nat
    decreases k,
{
    if k == 0 {
        1
    } else {
        10 * pow10((k - 1) as nat)
    }
}

/// The decimal text of a number with `k` digits has `k` characters, each an ASCII digit.
pub proof fn lemma_decimal_len(n: nat, k: nat)
    requires
        k >= 1,
        pow10((k - 1) as nat) <= n < pow10(k),
    ensures
        decimal_spec(n).len() == k,
        forall|i: int| 0 <= i < k ==> '0' <= #[trigger] decimal_spec(n)[i] <= '9',
    decreases k,
{
    if k == 1 {
        assert(n < 10);
    } else {
        assert(pow10((k - 2) as nat) <= n / 10 < pow10((k - 1) as nat)) by (nonlinear_arith)
            requires
                pow10((k - 1) as nat) <= n < pow10(k),
                pow10((k - 1) as nat) == 10 * pow10((k - 2) as nat),
                pow10(k) == 10 * pow10((k - 1) as nat),
        ;
        lemma_decimal_len(n / 10, (k - 1) as nat);
        let d = decimal_spec(n / 10);
        assert(decimal_spec(n) == d.push(digit_char(n % 10)));
        assert forall|i: int| 0 <= i < k implies '0' <= #[trigger] decimal_spec(n)[i] <= '9' by {
            if i < k - 1 {
                assert(decimal_spec(n)[i] == d[i]);
            }
        }
    }
}

/// A fresh random six-digit one-time code (`100000` to `999999`) in decimal.
pub fn generate_secure_otp() -> (r: String)
    ensures
        exists|n: nat| 100000 <= n <= 999999 && r@ == decimal_spec(n),
        r@.len() == 6,
        forall|i: int| 0 <= i < 6 ==> '0' <= #[trigger] r@[i] <= '9',
{
    let num = random_in_range(100000, 999999);
    let r = decimal_string(num as u64);
    proof {
        assert(pow10(5) == 100000 && pow10(6) == 1000000) by {
            reveal_with_fuel(pow10, 7);
        }
        lemma_decimal_len(num as nat, 6);
    }
    r
}

} // verus!
