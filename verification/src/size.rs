//! Size normalization: the image is padded to a power-of-two length with a
//! 512-byte floor, unless its unpadded length already is a power of two.
use vstd::prelude::*;

verus! {

/// Two to the power `e`.
pub open spec fn pow2(e: nat) -> nat
    decreases e,
{
    if e == 0 {
        1
    } else {
        2 * pow2((e - 1) as nat)
    }
}

/// `n` is an exact power of two.
pub open spec fn is_power_of_two(n: int) -> bool {
    exists|e: nat| n == pow2(e)
}

/// The smallest power of two that is at least `n`, reached by doubling from
/// `p`; `p` must itself be a positive power of two.
pub open spec fn next_pow2_from(p: int, n: int) -> int
    decreases n - p,
{
    if p >= n {
        p
    } else if p < 1 {
        0
    } else if 2 * p >= n {
        2 * p
    } else {
        next_pow2_from(2 * p, n)
    }
}

/// The total image size after normalization: an unpadded size that is zero
/// or already an exact power of two is kept; anything else is rounded up to
/// the next power of two, with a floor of 512.
pub open spec fn padded_total_size(pre: int) -> int {
    if pre == 0 || is_power_of_two(pre) {
        pre
    } else {
        let p = next_pow2_from(1, pre);
        if p < 512 {
            512
        } else {
            p
        }
    }
}

/// `pow2` is positive.
pub proof fn lemma_pow2_pos(e: nat)
    ensures
        pow2(e) >= 1,
    decreases e,
{
    if e > 0 {
        lemma_pow2_pos((e - 1) as nat);
    }
}

/// `pow2` strictly grows with its exponent.
pub proof fn lemma_pow2_increases(e1: nat, e2: nat)
    requires
        e1 < e2,
    ensures
        pow2(e1) < pow2(e2),
    decreases e2,
{
    lemma_pow2_pos(e1);
    if e2 - 1 > e1 {
        lemma_pow2_increases(e1, (e2 - 1) as nat);
    }
}

/// Doubling from the power of two `pow2(k)` reaches a power of two at least
/// `n` whose half is below `n`.
pub proof fn lemma_next_pow2_from(k: nat, n: int)
    requires
        pow2(k) < n,
    ensures
        exists|e: nat| next_pow2_from(pow2(k) as int, n) == #[trigger] pow2(e) && pow2(e) >= n
            && (e > 0 && pow2((e - 1) as nat) < n),
    decreases n - pow2(k),
{
    lemma_pow2_pos(k);
    assert(2 * pow2(k) == pow2(k + 1));
    if pow2(k + 1) >= n {
        assert(next_pow2_from(pow2(k) as int, n) == pow2(k + 1));
        assert(pow2(((k + 1) - 1) as nat) < n);
    } else {
        assert(next_pow2_from(pow2(k) as int, n) == next_pow2_from(pow2(k + 1) as int, n));
        lemma_next_pow2_from(k + 1, n);
    }
}

/// The normalized size of a nonzero unpadded size is a power of two, is at
/// least 512 unless the input was already a power of two below 512, and
/// never shrinks the image.
pub proof fn lemma_padded_total_size(pre: int)
    requires
        pre >= 1,
    ensures
        is_power_of_two(padded_total_size(pre)) || is_power_of_two(pre),
        padded_total_size(pre) >= pre,
        !(is_power_of_two(pre) && pre < 512) ==> is_power_of_two(padded_total_size(pre))
            && padded_total_size(pre) >= 512,
{
    if is_power_of_two(pre) {
        assert(padded_total_size(pre) == pre);
    } else {
        assert(pow2(0) == 1);
        if pre == 1 {
            assert(is_power_of_two(1)) by {
                assert(pow2(0) == 1);
            }
        }
        lemma_next_pow2_from(0, pre);
        let p = next_pow2_from(1, pre);
        assert(p >= pre);
        assert(is_power_of_two(512)) by {
            lemma_pow2_512();
        }
        if p < 512 {
            assert(padded_total_size(pre) == 512);
        } else {
            assert(padded_total_size(pre) == p);
        }
    }
}

/// 512 is two to the ninth.
pub proof fn lemma_pow2_512()
    ensures
        pow2(9) == 512,
{
    assert(pow2(9) == 512) by {
        reveal_with_fuel(pow2, 10);
    }
}

/// Computes the normalized total size and the number of padding bytes for
/// an image whose unpadded size is `pre`.
pub fn compute_padding(pre: u64) -> (r: (u64, u64))
    requires
        pre <= 0x8000_0000,
    ensures
        r.0 == padded_total_size(pre as int),
        r.1 == r.0 - pre,
        r.0 < 0x1_0000_0000,
        r.0 >= pre,
{
    if pre == 0 {
        return (0, 0);
    }
    let mut p: u64 = 1;
    let ghost mut k: nat = 0;
    while p < pre
        invariant
            1 <= p,
            pre <= 0x8000_0000,
            p as int == pow2(k),
            k == 0 || pow2((k - 1) as nat) < pre,
            p <= 0x1_0000_0000,
            p as int <= 2 * pre as int,
            next_pow2_from(1, pre as int) == next_pow2_from(p as int, pre as int),
        decreases 2 * pre - p,
    {
        proof {
            assert(next_pow2_from(p as int, pre as int)
                == next_pow2_from(2 * p as int, pre as int));
            k = k + 1;
        }
        p = p * 2;
    }
    proof {
        assert(next_pow2_from(p as int, pre as int) == p as int);
    }
    if p == pre {
        proof {
            assert(is_power_of_two(pre as int));
        }
        (pre, 0)
    } else {
        proof {
            assert(!is_power_of_two(pre as int)) by {
                if is_power_of_two(pre as int) {
                    let e = choose|e: nat| pre as int == pow2(e);
                    assert(pre < p);
                    if k == 0 {
                        assert(p == 1);
                    }
                    if e < k {
                        if e < k - 1 {
                            lemma_pow2_increases(e, (k - 1) as nat);
                        }
                        assert(pow2(e) <= pow2((k - 1) as nat));
                    } else {
                        if e > k {
                            lemma_pow2_increases(k, e);
                        }
                        assert(pow2(k) <= pow2(e));
                    }
                }
            }
        }
        proof {
            if k == 0 {
                assert(p == 1);
            } else {
                assert(p as int == 2 * pow2((k - 1) as nat));
            }
        }
        let total = if p < 512 { 512 } else { p };
        (total, total - pre)
    }
}

} // verus!
