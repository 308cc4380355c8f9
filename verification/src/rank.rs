//! The k-th smallest of some numbers, the numbers floats are ordered by, and the whole numbers
//! they are nearest to.
use vstd::arithmetic::power2;
use vstd::prelude::*;

verus! {

/// How many are smaller than `v`.
pub open spec fn below(s: Seq<i64>, v: i64) -> nat
    decreases s.len(),
{
    if s.len() == 0 {
        0
    } else {
        below(s.drop_last(), v) + if s.last() < v {
            1nat
        } else {
            0nat
        }
    }
}

/// How many are `v` or smaller.
pub open spec fn up_to(s: Seq<i64>, v: i64) -> nat
    decreases s.len(),
{
    if s.len() == 0 {
        0
    } else {
        up_to(s.drop_last(), v) + if s.last() <= v {
            1nat
        } else {
            0nat
        }
    }
}

/// Is `m` the one that stands at `k` when they are put in order, counting from zero?
pub open spec fn stands_at(s: Seq<i64>, k: nat, m: i64) -> bool {
    &&& s.contains(m)
    &&& below(s, m) <= k < up_to(s, m)
}

/// The one that stands at `k`.
pub open spec fn at(s: Seq<i64>, k: nat) -> i64 {
    choose|m: i64| stands_at(s, k, m)
}

/// At most one number stands at any place.
pub proof fn one_number_stands_at_a_place(s: Seq<i64>, k: nat, a: i64, b: i64)
    requires
        stands_at(s, k, a),
        stands_at(s, k, b),
    ensures
        a == b,
{
    if a < b {
        smaller_ones_are_below(s, a, b);
    }
    if b < a {
        smaller_ones_are_below(s, b, a);
    }
}

proof fn smaller_ones_are_below(s: Seq<i64>, a: i64, b: i64)
    requires
        a < b,
    ensures
        up_to(s, a) <= below(s, b),
    decreases s.len(),
{
    if s.len() > 0 {
        smaller_ones_are_below(s.drop_last(), a, b);
    }
}

proof fn counts_of_two(a: Seq<i64>, b: Seq<i64>, v: i64)
    ensures
        below(a + b, v) == below(a, v) + below(b, v),
        up_to(a + b, v) == up_to(a, v) + up_to(b, v),
    decreases b.len(),
{
    if b.len() == 0 {
        assert(a + b == a);
    } else {
        counts_of_two(a, b.drop_last(), v);
        assert((a + b).drop_last() == a + b.drop_last());
        assert((a + b).last() == b.last());
    }
}

proof fn counts_after_insertion(s: Seq<i64>, at: int, x: i64, v: i64)
    requires
        0 <= at <= s.len(),
    ensures
        below(s.insert(at, x), v) == below(s.push(x), v),
        up_to(s.insert(at, x), v) == up_to(s.push(x), v),
{
    let front = s.take(at);
    let back = s.skip(at);
    assert(s == front + back);
    assert(s.insert(at, x) == (front + seq![x]) + back);
    assert(s.push(x) == s + seq![x]);
    counts_of_two(front, back, v);
    counts_of_two(front, seq![x], v);
    counts_of_two(front + seq![x], back, v);
    counts_of_two(s, seq![x], v);
}

proof fn none_below(s: Seq<i64>, v: i64)
    requires
        forall|i: int| 0 <= i < s.len() ==> #[trigger] s[i] >= v,
    ensures
        below(s, v) == 0,
    decreases s.len(),
{
    if s.len() > 0 {
        assert(s[s.len() - 1] >= v);
        assert forall|i: int| 0 <= i < s.drop_last().len() implies #[trigger] s.drop_last()[i]
            >= v by {
            assert(s.drop_last()[i] == s[i]);
        }
        none_below(s.drop_last(), v);
    }
}

proof fn all_up_to(s: Seq<i64>, v: i64)
    requires
        forall|i: int| 0 <= i < s.len() ==> #[trigger] s[i] <= v,
    ensures
        up_to(s, v) == s.len(),
    decreases s.len(),
{
    if s.len() > 0 {
        assert(s[s.len() - 1] <= v);
        assert forall|i: int| 0 <= i < s.drop_last().len() implies #[trigger] s.drop_last()[i]
            <= v by {
            assert(s.drop_last()[i] == s[i]);
        }
        all_up_to(s.drop_last(), v);
    }
}

proof fn at_most_all_below(s: Seq<i64>, v: i64)
    ensures
        below(s, v) <= s.len(),
    decreases s.len(),
{
    if s.len() > 0 {
        at_most_all_below(s.drop_last(), v);
    }
}

/// In order, from the smallest.
pub open spec fn in_order(s: Seq<i64>) -> bool {
    forall|i: int, j: int| 0 <= i < j < s.len() ==> #[trigger] s[i] <= #[trigger] s[j]
}

proof fn a_sorted_place(s: Seq<i64>, k: int)
    requires
        in_order(s),
        0 <= k < s.len(),
    ensures
        stands_at(s, k as nat, s[k]),
{
    let v = s[k];
    assert(s == s.take(k) + s.skip(k));
    counts_of_two(s.take(k), s.skip(k), v);
    assert forall|i: int| 0 <= i < s.skip(k).len() implies #[trigger] s.skip(k)[i] >= v by {
        assert(s.skip(k)[i] == s[k + i]);
    }
    none_below(s.skip(k), v);
    at_most_all_below(s.take(k), v);
    assert(s == s.take(k + 1) + s.skip(k + 1));
    counts_of_two(s.take(k + 1), s.skip(k + 1), v);
    assert forall|i: int| 0 <= i < s.take(k + 1).len() implies #[trigger] s.take(k + 1)[i] <= v by {
        assert(s.take(k + 1)[i] == s[i]);
    }
    all_up_to(s.take(k + 1), v);
}

/// Taking the last element of `a` out of two sequences that hold the same leaves two that do.
pub proof fn the_same_without_one<T>(a: Seq<T>, b: Seq<T>) -> (i: int)
    requires
        a.len() > 0,
        a.to_multiset() == b.to_multiset(),
    ensures
        0 <= i < b.len(),
        b[i] == a.last(),
        b.remove(i).insert(i, a.last()) == b,
        a.drop_last().to_multiset() == b.remove(i).to_multiset(),
{
    broadcast use vstd::seq_lib::group_to_multiset_ensures;
    broadcast use vstd::multiset::group_multiset_axioms;

    let x = a.last();
    assert(a.drop_last().push(x) == a);
    assert(a[a.len() - 1] == x);
    assert(a.contains(x));
    assert(b.to_multiset().count(x) > 0);
    let i = choose|i: int| 0 <= i < b.len() && b[i] == x;
    assert(b.remove(i).insert(i, x) =~= b);
    assert(a.drop_last().to_multiset() =~= a.to_multiset().remove(x));
    assert(b.remove(i).to_multiset() == b.to_multiset().remove(x));
    i
}

proof fn counts_do_not_depend_on_order(a: Seq<i64>, b: Seq<i64>, v: i64)
    requires
        a.to_multiset() == b.to_multiset(),
    ensures
        below(a, v) == below(b, v),
        up_to(a, v) == up_to(b, v),
    decreases a.len(),
{
    broadcast use vstd::seq_lib::group_to_multiset_ensures;

    assert(a.len() == a.to_multiset().len() == b.to_multiset().len() == b.len());
    if a.len() > 0 {
        let i = the_same_without_one(a, b);
        let rest = b.remove(i);
        counts_do_not_depend_on_order(a.drop_last(), rest, v);
        counts_after_insertion(rest, i, a.last(), v);
        assert(rest.push(a.last()).drop_last() == rest);
    }
}

/// Whatever order numbers come in, the one that stands at `k` is the one at `k` once they are
/// sorted.
pub proof fn sorting_finds_every_place(s: Seq<i64>, sorted: Seq<i64>, k: int)
    requires
        in_order(sorted),
        sorted.to_multiset() == s.to_multiset(),
        0 <= k < sorted.len(),
    ensures
        at(s, k as nat) == sorted[k],
        s.contains(sorted[k]),
        s.len() == sorted.len(),
{
    broadcast use vstd::seq_lib::group_to_multiset_ensures;

    let m = sorted[k];
    assert(s.len() == s.to_multiset().len() == sorted.to_multiset().len() == sorted.len());
    assert(sorted.contains(m));
    assert(s.to_multiset().count(m) > 0);
    a_sorted_place(sorted, k);
    counts_do_not_depend_on_order(sorted, s, m);
    assert(stands_at(s, k as nat, m));
    one_number_stands_at_a_place(s, k as nat, m, at(s, k as nat));
}

/// The same numbers in another order have the same one at every place.
pub proof fn a_place_does_not_depend_on_order(a: Seq<i64>, b: Seq<i64>, k: nat)
    requires
        a.to_multiset() == b.to_multiset(),
        k < a.len(),
    ensures
        at(a, k) == at(b, k),
{
    broadcast use vstd::seq_lib::group_to_multiset_ensures;

    let leq = |x: i64, y: i64| x <= y;
    let sorted = a.sort_by(leq);
    a.lemma_sort_by_ensures(leq);
    assert(a.len() == a.to_multiset().len() == sorted.to_multiset().len() == sorted.len());
    assert forall|i: int, j: int| 0 <= i < j < sorted.len() implies #[trigger] sorted[i]
        <= #[trigger] sorted[j] by {
        assert(leq(sorted[i], sorted[j]));
    }
    sorting_finds_every_place(a, sorted, k as int);
    sorting_finds_every_place(b, sorted, k as int);
}

/// The number that stands at `k` when they are put in order.
pub fn pick(s: &Vec<i64>, k: usize) -> (r: i64)
    requires
        k < s@.len(),
    ensures
        stands_at(s@, k as nat, r),
        r == at(s@, k as nat),
{
    let mut sorted: Vec<i64> = Vec::new();
    let mut i: usize = 0;
    while i < s.len()
        invariant
            i <= s@.len(),
            sorted@.len() == i,
            in_order(sorted@),
            forall|v: i64| #[trigger] below(sorted@, v) == below(s@.take(i as int), v),
            forall|v: i64| #[trigger] up_to(sorted@, v) == up_to(s@.take(i as int), v),
            forall|j: int| 0 <= j < sorted@.len() ==> s@.contains(#[trigger] sorted@[j]),
        decreases s@.len() - i,
    {
        let x = s[i];
        let ghost before = sorted@;
        let mut at: usize = 0;
        while at < sorted.len()
            invariant
                at <= sorted@.len(),
                sorted@ == before,
                forall|j: int| 0 <= j < at ==> #[trigger] before[j] <= x,
            ensures
                at <= sorted@.len(),
                forall|j: int| 0 <= j < at ==> #[trigger] before[j] <= x,
                at < sorted@.len() ==> before[at as int] > x,
            decreases sorted@.len() - at,
        {
            if sorted[at] > x {
                break;
            }
            at = at + 1;
        }
        sorted.insert(at, x);
        assert(sorted@ == before.insert(at as int, x));
        assert forall|a: int, b: int| 0 <= a < b < sorted@.len() implies #[trigger] sorted@[a]
            <= #[trigger] sorted@[b] by {
            let a0 = if a < at { a } else { a - 1 };
            let b0 = if b < at { b } else { b - 1 };
            if a == at {
                assert(sorted@[b] == before[b0]);
                assert(before[at as int] <= before[b0] || b0 == at);
            } else if b == at {
                assert(sorted@[a] == before[a0]);
            } else {
                assert(sorted@[a] == before[a0]);
                assert(sorted@[b] == before[b0]);
            }
        }
        assert(s@.take(i + 1) == s@.take(i as int).push(x));
        assert forall|v: i64| #[trigger] below(sorted@, v) == below(s@.take(i + 1), v) by {
            counts_after_insertion(before, at as int, x, v);
            assert(below(before, v) == below(s@.take(i as int), v));
            assert(before.push(x).drop_last() == before);
            assert(s@.take(i as int).push(x).drop_last() == s@.take(i as int));
        }
        assert forall|v: i64| #[trigger] up_to(sorted@, v) == up_to(s@.take(i + 1), v) by {
            counts_after_insertion(before, at as int, x, v);
            assert(up_to(before, v) == up_to(s@.take(i as int), v));
            assert(before.push(x).drop_last() == before);
            assert(s@.take(i as int).push(x).drop_last() == s@.take(i as int));
        }
        assert forall|j: int| 0 <= j < sorted@.len() implies s@.contains(#[trigger] sorted@[j]) by {
            if j == at {
                assert(s@[i as int] == x);
            } else {
                let j0 = if j < at { j } else { j - 1 };
                assert(sorted@[j] == before[j0]);
            }
        }
        i = i + 1;
    }
    assert(s@.take(i as int) == s@);
    proof {
        a_sorted_place(sorted@, k as int);
        assert(below(sorted@, sorted@[k as int]) == below(s@, sorted@[k as int]));
        assert(up_to(sorted@, sorted@[k as int]) == up_to(s@, sorted@[k as int]));
        assert(s@.contains(sorted@[k as int]));
        one_number_stands_at_a_place(s@, k as nat, sorted@[k as int], at(s@, k as nat));
    }
    sorted[k]
}

/// The order key of a double: comparing keys compares the numbers, and both zeros have one key.
pub open spec fn key_of(bits: u64) -> int {
    let magnitude = bits as int % 0x8000_0000_0000_0000;
    if bits < 0x8000_0000_0000_0000 {
        magnitude
    } else {
        -magnitude
    }
}

/// Do these bits stand for a number, finite or not?
pub open spec fn is_number(bits: u64) -> bool {
    bits as int % 0x8000_0000_0000_0000 <= 0x7ff0_0000_0000_0000
}

/// The order key of the double with these bits.
pub fn range_key(bits: u64) -> (r: i64)
    requires
        is_number(bits),
    ensures
        r == key_of(bits),
{
    let magnitude: u64 = bits % 0x8000_0000_0000_0000;
    if bits < 0x8000_0000_0000_0000 {
        magnitude as i64
    } else {
        -(magnitude as i64)
    }
}

/// The bits of the double with this key.
pub open spec fn bits_spec(key: i64) -> int {
    if key >= 0 {
        key as int
    } else {
        0x8000_0000_0000_0000 - key
    }
}

/// The bits of the double with this key.
pub fn key_bits(key: i64) -> (r: u64)
    requires
        key > i64::MIN,
    ensures
        r == bits_spec(key),
{
    if key >= 0 {
        key as u64
    } else {
        0x8000_0000_0000_0000u64 + (-key) as u64
    }
}

/// Every number but negative zero is found again from its key, and negative zero comes back as
/// the zero it equals.
pub proof fn a_key_leads_back_to_its_number(bits: u64)
    requires
        is_number(bits),
    ensures
        bits != 0x8000_0000_0000_0000 ==> bits_spec(key_of(bits) as i64) == bits,
        bits == 0x8000_0000_0000_0000 ==> bits_spec(key_of(bits) as i64) == 0,
{
}

// ── doubles as whole numbers ─────────────────────────────────────────────────

/// The exponent field of a double. Zero is that of the numbers too small to be written otherwise.
pub open spec fn exponent_field(bits: u64) -> int {
    bits as int / 0x10_0000_0000_0000 % 2048
}

/// Which power of two, counted from 2 to the -1075, the last place of a double stands for.
pub open spec fn exponent(bits: u64) -> int {
    if exponent_field(bits) == 0 {
        1
    } else {
        exponent_field(bits)
    }
}

/// The significand of a double: how many units in its last place it is.
pub open spec fn significand(bits: u64) -> int {
    bits as int % 0x10_0000_0000_0000 + if exponent_field(bits) > 0 {
        0x10_0000_0000_0000int
    } else {
        0
    }
}

/// The nearest whole number, halves away from zero, nothing below zero and nothing above what a
/// `u64` holds; a double that is no number is zero.
pub open spec fn whole_of(bits: u64) -> int {
    if bits >= 0x8000_0000_0000_0000 || !is_number(bits) {
        0
    } else if exponent(bits) >= 1075 {
        let n = significand(bits) * power2::pow2((exponent(bits) - 1075) as nat);
        if n > u64::MAX {
            u64::MAX as int
        } else {
            n
        }
    } else {
        let units = power2::pow2((1075 - exponent(bits)) as nat) as int;
        (2 * significand(bits) + units) / (2 * units)
    }
}

fn power_of_two(n: u64) -> (r: u64)
    requires
        n < 64,
    ensures
        r == power2::pow2(n as nat),
{
    let mut r: u64 = 1;
    let mut i: u64 = 0;
    proof {
        power2::lemma2_to64();
    }
    while i < n
        invariant
            i <= n < 64,
            r == power2::pow2(i as nat),
            power2::pow2(64) == 0x1_0000_0000_0000_0000,
        decreases n - i,
    {
        proof {
            power2::lemma_pow2_unfold((i + 1) as nat);
            if i + 1 < 64 {
                power2::lemma_pow2_strictly_increases((i + 1) as nat, 64);
            }
        }
        r = 2 * r;
        i = i + 1;
    }
    r
}

/// The double with these bits as a whole number.
pub fn whole(bits: u64) -> (r: u64)
    ensures
        r == whole_of(bits),
{
    if bits >= 0x8000_0000_0000_0000 || bits > 0x7ff0_0000_0000_0000 {
        return 0;
    }
    let field: u64 = bits / 0x10_0000_0000_0000 % 2048;
    let fraction: u64 = bits % 0x10_0000_0000_0000;
    let exponent: u64 = if field == 0 {
        1
    } else {
        field
    };
    let significand: u64 = if field > 0 {
        fraction + 0x10_0000_0000_0000
    } else {
        fraction
    };
    proof {
        power2::lemma2_to64();
        power2::lemma2_to64_rest();
    }
    if exponent > 1086 {
        let ghost n = (exponent - 1075) as nat;
        proof {
            if n > 12 {
                power2::lemma_pow2_strictly_increases(12, n);
            }
            assert(significand * power2::pow2(n) > u64::MAX) by (nonlinear_arith)
                requires
                    significand >= 0x10_0000_0000_0000,
                    power2::pow2(n) >= 4096,
            ;
        }
        u64::MAX
    } else if exponent >= 1075 {
        let scale = power_of_two(exponent - 1075);
        proof {
            if exponent < 1086 {
                power2::lemma_pow2_strictly_increases((exponent - 1075) as nat, 11);
            }
            assert(significand * scale <= u64::MAX) by (nonlinear_arith)
                requires
                    0 <= significand < 0x20_0000_0000_0000,
                    0 <= scale <= 2048,
            ;
        }
        significand * scale
    } else if exponent < 1022 {
        let ghost units = power2::pow2((1075 - exponent) as nat) as int;
        proof {
            if exponent < 1021 {
                power2::lemma_pow2_strictly_increases(54, (1075 - exponent) as nat);
            }
            assert((2 * significand + units) / (2 * units) == 0) by (nonlinear_arith)
                requires
                    0 <= significand < 0x20_0000_0000_0000,
                    units >= 0x40_0000_0000_0000,
            ;
        }
        0
    } else {
        let units = power_of_two(1075 - exponent);
        proof {
            power2::lemma_pow2_unfold((1075 - exponent) as nat);
            if exponent > 1022 {
                power2::lemma_pow2_strictly_increases((1075 - exponent) as nat, 53);
            }
            power2::lemma_pow2_pos((1075 - exponent) as nat);
        }
        (2 * significand + units) / (2 * units)
    }
}

/// The keys of doubles are ordered as the doubles are: among positive ones by their bits, among
/// negative ones the other way round, negative before positive, and the two zeros alike.
pub proof fn keys_keep_the_order(a: u64, b: u64)
    requires
        is_number(a),
        is_number(b),
    ensures
        a < 0x8000_0000_0000_0000 && b < 0x8000_0000_0000_0000 ==> (key_of(a) < key_of(b) <==> a
            < b),
        a >= 0x8000_0000_0000_0000 && b >= 0x8000_0000_0000_0000 ==> (key_of(a) < key_of(b) <==> a
            > b),
        a > 0x8000_0000_0000_0000 && b < 0x8000_0000_0000_0000 ==> key_of(a) < key_of(b),
        key_of(0x8000_0000_0000_0000) == key_of(0),
        key_of(a) <= 0x7ff0_0000_0000_0000,
{
}

/// The fields of a double are its bits: those of a positive one are the exponent's, and below
/// them those of the significand without the leading one that is not written.
pub proof fn a_double_is_its_fields(bits: u64)
    requires
        bits < 0x8000_0000_0000_0000,
    ensures
        0 <= exponent_field(bits) < 2048,
        exponent_field(bits) > 0 ==> bits == (exponent(bits) - 1) * 0x10_0000_0000_0000
            + significand(bits),
        exponent_field(bits) == 0 ==> bits == significand(bits) && exponent(bits) == 1,
        exponent_field(bits) > 0 ==> 0x10_0000_0000_0000 <= significand(bits)
            < 0x20_0000_0000_0000,
{
}

/// Rounding finds the nearest whole number: a double below the largest whole ones lies at most
/// half a whole away from it, exactly half only below it, and a larger one that fits is that
/// number itself. What is negative or no number is zero, and what is too large the largest.
pub proof fn the_nearest_whole_number_is_found(bits: u64)
    ensures
        0 <= whole_of(bits) <= u64::MAX,
        bits >= 0x8000_0000_0000_0000 ==> whole_of(bits) == 0,
        !is_number(bits) ==> whole_of(bits) == 0,
        bits < 0x8000_0000_0000_0000 && is_number(bits) && exponent(bits) < 1075 ==> {
            let units = power2::pow2((1075 - exponent(bits)) as nat) as int;
            let n = whole_of(bits);
            units * (2 * n - 1) <= 2 * significand(bits) < units * (2 * n + 1)
        },
        bits < 0x8000_0000_0000_0000 && is_number(bits) && exponent(bits) >= 1075 ==> {
            let n = significand(bits) * power2::pow2((exponent(bits) - 1075) as nat);
            whole_of(bits) == if n <= u64::MAX {
                n
            } else {
                u64::MAX as int
            }
        },
{
    if bits < 0x8000_0000_0000_0000 && is_number(bits) {
        if exponent(bits) < 1075 {
            let units = power2::pow2((1075 - exponent(bits)) as nat) as int;
            power2::lemma_pow2_pos((1075 - exponent(bits)) as nat);
            let s = significand(bits);
            let n = whole_of(bits);
            let top = 2 * s + units;
            vstd::arithmetic::div_mod::lemma_fundamental_div_mod(top, 2 * units);
            vstd::arithmetic::div_mod::lemma_mod_bound(top, 2 * units);
            assert(units * (2 * n - 1) == (2 * units) * n - units) by (nonlinear_arith);
            assert(units * (2 * n + 1) == (2 * units) * n + units) by (nonlinear_arith);
            assert(0 <= n <= top) by (nonlinear_arith)
                requires
                    n == top / (2 * units),
                    units >= 1,
                    top >= 0,
            ;
            assert(n <= s + 1) by (nonlinear_arith)
                requires
                    (2 * units) * n <= 2 * s + units,
                    units >= 1,
                    s >= 0,
            ;
        } else {
            power2::lemma_pow2_pos((exponent(bits) - 1075) as nat);
            assert(significand(bits) * power2::pow2((exponent(bits) - 1075) as nat) >= 0)
                by (nonlinear_arith)
                requires
                    significand(bits) >= 0,
                    power2::pow2((exponent(bits) - 1075) as nat) >= 0,
            ;
        }
    }
}

} // verus!
