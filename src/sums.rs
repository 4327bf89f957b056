//! Sums of integer arrays.
//!
//! Every sum adds with the native two's-complement wraparound of its element
//! type: the result is the true total reduced into the type's range, never a
//! clamped value and never a panic.
use vstd::prelude::*;
use vstd::arithmetic::div_mod::{
    lemma_add_mod_noop_right,
    lemma_mod_add_multiples_vanish,
    lemma_mod_sub_multiples_vanish,
    lemma_small_mod,
};

verus! {

/// The exact mathematical total of `s`, each element read through `f`.
pub open spec fn total_of<T>(s: Seq<T>, f: spec_fn(T) -> int) -> int
    decreases s.len(),
{
    if s.len() == 0 {
        0
    } else {
        total_of(s.drop_last(), f) + f(s.last())
    }
}

/// Reduces `x` into the window `[lo, lo + m)` modulo `m`.
pub open spec fn wrap(x: int, lo: int, m: int) -> int {
    (x - lo) % m + lo
}

/// The total of `s` reduced into the range of `u8`: what `u8_sum` returns.
pub open spec fn u8_total(s: Seq<u8>) -> int {
    wrap(total_of(s, |x: u8| x as int), 0, 0x100)
}

/// The total of `s` reduced into the range of `u16`: what `u16_sum` returns.
pub open spec fn u16_total(s: Seq<u16>) -> int {
    wrap(total_of(s, |x: u16| x as int), 0, 0x1_0000)
}

/// The total of `s` reduced into the range of `u32`: what `u32_sum` returns.
pub open spec fn u32_total(s: Seq<u32>) -> int {
    wrap(total_of(s, |x: u32| x as int), 0, 0x1_0000_0000)
}

/// The total of `s` reduced into the range of `u64`: what `u64_sum` returns.
pub open spec fn u64_total(s: Seq<u64>) -> int {
    wrap(total_of(s, |x: u64| x as int), 0, 0x1_0000_0000_0000_0000)
}

/// The total of `s` reduced into the range of `i8`: what `i8_sum` returns.
pub open spec fn i8_total(s: Seq<i8>) -> int {
    wrap(total_of(s, |x: i8| x as int), -0x80, 0x100)
}

/// The total of `s` reduced into the range of `i16`: what `i16_sum` returns.
pub open spec fn i16_total(s: Seq<i16>) -> int {
    wrap(total_of(s, |x: i16| x as int), -0x8000, 0x1_0000)
}

/// The total of `s` reduced into the range of `i32`: what `i32_sum` returns.
pub open spec fn i32_total(s: Seq<i32>) -> int {
    wrap(total_of(s, |x: i32| x as int), -0x8000_0000, 0x1_0000_0000)
}

/// The total of `s` reduced into the range of `i64`: what `i64_sum` returns.
pub open spec fn i64_total(s: Seq<i64>) -> int {
    wrap(total_of(s, |x: i64| x as int), -0x8000_0000_0000_0000, 0x1_0000_0000_0000_0000)
}

/// A value already inside the window is left alone; one a window above or
/// below it moves by exactly `m`.
pub proof fn lemma_wrap_near(v: int, lo: int, m: int)
    requires
        0 < m,
        lo - m <= v < lo + 2 * m,
    ensures
        lo <= v < lo + m ==> wrap(v, lo, m) == v,
        lo + m <= v ==> wrap(v, lo, m) == v - m,
        v < lo ==> wrap(v, lo, m) == v + m,
{
    let x = v - lo;
    if 0 <= x < m {
        lemma_small_mod(x as nat, m as nat);
    } else if m <= x {
        lemma_mod_sub_multiples_vanish(x, m);
        lemma_small_mod((x - m) as nat, m as nat);
    } else {
        lemma_mod_add_multiples_vanish(x, m);
        lemma_small_mod((x + m) as nat, m as nat);
    }
}

/// Wrapping an intermediate result does not change the wrapped final total.
pub proof fn lemma_wrap_add(a: int, b: int, lo: int, m: int)
    requires
        0 < m,
    ensures
        wrap(wrap(a, lo, m) + b, lo, m) == wrap(a + b, lo, m),
{
    lemma_add_mod_noop_right(b, a - lo, m);
    assert(wrap(a, lo, m) + b - lo == b + (a - lo) % m);
    assert(a + b - lo == b + (a - lo));
}

/// The total of a prefix grows by the next element.
pub proof fn lemma_total_prefix<T>(s: Seq<T>, f: spec_fn(T) -> int, i: int)
    requires
        0 <= i < s.len(),
    ensures
        total_of(s.take(i + 1), f) == total_of(s.take(i), f) + f(s[i]),
{
    assert(s.take(i + 1).drop_last() =~= s.take(i));
}

/// One step of a wrapping accumulation: if `acc` is the wrapped total of the
/// first `i` elements, the wrapped `acc + f(s[i])` is that of the first `i + 1`.
pub proof fn lemma_wrapping_step<T>(s: Seq<T>, f: spec_fn(T) -> int, i: int, acc: int, lo: int, m: int)
    requires
        0 < m,
        0 <= i < s.len(),
        acc == wrap(total_of(s.take(i), f), lo, m),
    ensures
        wrap(acc + f(s[i]), lo, m) == wrap(total_of(s.take(i + 1), f), lo, m),
{
    lemma_total_prefix(s, f, i);
    lemma_wrap_add(total_of(s.take(i), f), f(s[i]), lo, m);
}

/// Removing one element takes exactly that element off the total.
pub proof fn lemma_total_remove<T>(s: Seq<T>, f: spec_fn(T) -> int, i: int)
    requires
        0 <= i < s.len(),
    ensures
        total_of(s, f) == total_of(s.remove(i), f) + f(s[i]),
    decreases s.len(),
{
    if i == s.len() - 1 {
        assert(s.remove(i) =~= s.drop_last());
    } else {
        let r = s.remove(i);
        assert(r.drop_last() =~= s.drop_last().remove(i));
        assert(r.last() == s.last());
        lemma_total_remove(s.drop_last(), f, i);
    }
}

/// The total is insensitive to order: two sequences holding the same elements,
/// each as often, have the same total. Every sum's result is a reduction of
/// such a total, so reordering an array never changes its sum.
pub proof fn lemma_total_permutation<T>(a: Seq<T>, b: Seq<T>, f: spec_fn(T) -> int)
    requires
        a.to_multiset() == b.to_multiset(),
    ensures
        total_of(a, f) == total_of(b, f),
    decreases a.len(),
{
    a.to_multiset_ensures();
    b.to_multiset_ensures();
    if a.len() == 0 {
        assert(b.len() == 0);
    } else {
        let x = a.last();
        let rest = a.drop_last();
        rest.to_multiset_ensures();
        assert(rest.push(x) =~= a);
        assert(a.to_multiset().count(x) > 0);
        assert(b.contains(x));
        let i = choose|i: int| 0 <= i < b.len() && b[i] == x;
        assert(b.remove(i).to_multiset() =~= rest.to_multiset());
        lemma_total_permutation(rest, b.remove(i), f);
        lemma_total_remove(b, f, i);
    }
}

/// Totals of the empty sequence and of a single element.
pub proof fn lemma_total_single<T>(v: T, f: spec_fn(T) -> int)
    ensures
        total_of(Seq::<T>::empty(), f) == 0,
        total_of(seq![v], f) == f(v),
{
    let s = seq![v];
    assert(s.drop_last() =~= Seq::<T>::empty());
    assert(s.last() == v);
    assert(total_of(s, f) == total_of(s.drop_last(), f) + f(s.last()));
}

/// For every integer kind the sum of no values is zero and the sum of a
/// single value is that value.
pub proof fn lemma_sum_empty_and_single()
    ensures
        u8_total(Seq::empty()) == 0,
        forall|v: u8| #[trigger] u8_total(seq![v]) == v as int,
        u16_total(Seq::empty()) == 0,
        forall|v: u16| #[trigger] u16_total(seq![v]) == v as int,
        u32_total(Seq::empty()) == 0,
        forall|v: u32| #[trigger] u32_total(seq![v]) == v as int,
        u64_total(Seq::empty()) == 0,
        forall|v: u64| #[trigger] u64_total(seq![v]) == v as int,
        i8_total(Seq::empty()) == 0,
        forall|v: i8| #[trigger] i8_total(seq![v]) == v as int,
        i16_total(Seq::empty()) == 0,
        forall|v: i16| #[trigger] i16_total(seq![v]) == v as int,
        i32_total(Seq::empty()) == 0,
        forall|v: i32| #[trigger] i32_total(seq![v]) == v as int,
        i64_total(Seq::empty()) == 0,
        forall|v: i64| #[trigger] i64_total(seq![v]) == v as int,
{
    lemma_wrap_near(0, 0, 0x100);
    assert forall|v: u8| #[trigger] u8_total(seq![v]) == v as int by {
        lemma_total_single(v, |x: u8| x as int);
        lemma_wrap_near(v as int, 0, 0x100);
    }
    lemma_wrap_near(0, 0, 0x1_0000);
    assert forall|v: u16| #[trigger] u16_total(seq![v]) == v as int by {
        lemma_total_single(v, |x: u16| x as int);
        lemma_wrap_near(v as int, 0, 0x1_0000);
    }
    lemma_wrap_near(0, 0, 0x1_0000_0000);
    assert forall|v: u32| #[trigger] u32_total(seq![v]) == v as int by {
        lemma_total_single(v, |x: u32| x as int);
        lemma_wrap_near(v as int, 0, 0x1_0000_0000);
    }
    lemma_wrap_near(0, 0, 0x1_0000_0000_0000_0000);
    assert forall|v: u64| #[trigger] u64_total(seq![v]) == v as int by {
        lemma_total_single(v, |x: u64| x as int);
        lemma_wrap_near(v as int, 0, 0x1_0000_0000_0000_0000);
    }
    lemma_wrap_near(0, -0x80, 0x100);
    assert forall|v: i8| #[trigger] i8_total(seq![v]) == v as int by {
        lemma_total_single(v, |x: i8| x as int);
        lemma_wrap_near(v as int, -0x80, 0x100);
    }
    lemma_wrap_near(0, -0x8000, 0x1_0000);
    assert forall|v: i16| #[trigger] i16_total(seq![v]) == v as int by {
        lemma_total_single(v, |x: i16| x as int);
        lemma_wrap_near(v as int, -0x8000, 0x1_0000);
    }
    lemma_wrap_near(0, -0x8000_0000, 0x1_0000_0000);
    assert forall|v: i32| #[trigger] i32_total(seq![v]) == v as int by {
        lemma_total_single(v, |x: i32| x as int);
        lemma_wrap_near(v as int, -0x8000_0000, 0x1_0000_0000);
    }
    lemma_wrap_near(0, -0x8000_0000_0000_0000, 0x1_0000_0000_0000_0000);
    assert forall|v: i64| #[trigger] i64_total(seq![v]) == v as int by {
        lemma_total_single(v, |x: i64| x as int);
        lemma_wrap_near(v as int, -0x8000_0000_0000_0000, 0x1_0000_0000_0000_0000);
    }
}

/// Sum of `u8` values, wrapping modulo 2^8.
pub fn u8_sum(arr: Vec<u8>) -> (r: u8)
    ensures
        r as int == u8_total(arr@),
{
    let mut acc: u8 = 0;
    let mut i: usize = 0;
    proof {
        lemma_wrap_near(0, 0, 0x100);
    }
    while i < arr.len()
        invariant
            i <= arr.len(),
            acc as int == wrap(total_of(arr@.take(i as int), |x: u8| x as int), 0, 0x100),
        decreases arr.len() - i,
    {
        proof {
            lemma_wrapping_step(arr@, |x: u8| x as int, i as int, acc as int, 0, 0x100);
            lemma_wrap_near(acc + arr[i as int], 0, 0x100);
        }
        acc = acc.wrapping_add(arr[i]);
        i = i + 1;
    }
    assert(arr@.take(arr.len() as int) =~= arr@);
    acc
}

/// Sum of `u16` values, wrapping modulo 2^16.
pub fn u16_sum(arr: Vec<u16>) -> (r: u16)
    ensures
        r as int == u16_total(arr@),
{
    let mut acc: u16 = 0;
    let mut i: usize = 0;
    proof {
        lemma_wrap_near(0, 0, 0x1_0000);
    }
    while i < arr.len()
        invariant
            i <= arr.len(),
            acc as int == wrap(total_of(arr@.take(i as int), |x: u16| x as int), 0, 0x1_0000),
        decreases arr.len() - i,
    {
        proof {
            lemma_wrapping_step(arr@, |x: u16| x as int, i as int, acc as int, 0, 0x1_0000);
            lemma_wrap_near(acc + arr[i as int], 0, 0x1_0000);
        }
        acc = acc.wrapping_add(arr[i]);
        i = i + 1;
    }
    assert(arr@.take(arr.len() as int) =~= arr@);
    acc
}

/// Sum of `u32` values, wrapping modulo 2^32.
pub fn u32_sum(arr: Vec<u32>) -> (r: u32)
    ensures
        r as int == u32_total(arr@),
{
    let mut acc: u32 = 0;
    let mut i: usize = 0;
    proof {
        lemma_wrap_near(0, 0, 0x1_0000_0000);
    }
    while i < arr.len()
        invariant
            i <= arr.len(),
            acc as int == wrap(total_of(arr@.take(i as int), |x: u32| x as int), 0, 0x1_0000_0000),
        decreases arr.len() - i,
    {
        proof {
            lemma_wrapping_step(arr@, |x: u32| x as int, i as int, acc as int, 0, 0x1_0000_0000);
            lemma_wrap_near(acc + arr[i as int], 0, 0x1_0000_0000);
        }
        acc = acc.wrapping_add(arr[i]);
        i = i + 1;
    }
    assert(arr@.take(arr.len() as int) =~= arr@);
    acc
}

/// Sum of `u64` values, wrapping modulo 2^64.
pub fn u64_sum(arr: Vec<u64>) -> (r: u64)
    ensures
        r as int == u64_total(arr@),
{
    let mut acc: u64 = 0;
    let mut i: usize = 0;
    proof {
        lemma_wrap_near(0, 0, 0x1_0000_0000_0000_0000);
    }
    while i < arr.len()
        invariant
            i <= arr.len(),
            acc as int == wrap(total_of(arr@.take(i as int), |x: u64| x as int), 0, 0x1_0000_0000_0000_0000),
        decreases arr.len() - i,
    {
        proof {
            lemma_wrapping_step(arr@, |x: u64| x as int, i as int, acc as int, 0, 0x1_0000_0000_0000_0000);
            lemma_wrap_near(acc + arr[i as int], 0, 0x1_0000_0000_0000_0000);
        }
        acc = acc.wrapping_add(arr[i]);
        i = i + 1;
    }
    assert(arr@.take(arr.len() as int) =~= arr@);
    acc
}

/// Sum of `i8` values, wrapping in two's complement modulo 2^8.
pub fn i8_sum(arr: Vec<i8>) -> (r: i8)
    ensures
        r as int == i8_total(arr@),
{
    let mut acc: i8 = 0;
    let mut i: usize = 0;
    proof {
        lemma_wrap_near(0, -0x80, 0x100);
    }
    while i < arr.len()
        invariant
            i <= arr.len(),
            acc as int == wrap(total_of(arr@.take(i as int), |x: i8| x as int), -0x80, 0x100),
        decreases arr.len() - i,
    {
        proof {
            lemma_wrapping_step(arr@, |x: i8| x as int, i as int, acc as int, -0x80, 0x100);
            lemma_wrap_near(acc + arr[i as int], -0x80, 0x100);
        }
        acc = acc.wrapping_add(arr[i]);
        i = i + 1;
    }
    assert(arr@.take(arr.len() as int) =~= arr@);
    acc
}

/// Sum of `i16` values, wrapping in two's complement modulo 2^16.
pub fn i16_sum(arr: Vec<i16>) -> (r: i16)
    ensures
        r as int == i16_total(arr@),
{
    let mut acc: i16 = 0;
    let mut i: usize = 0;
    proof {
        lemma_wrap_near(0, -0x8000, 0x1_0000);
    }
    while i < arr.len()
        invariant
            i <= arr.len(),
            acc as int == wrap(total_of(arr@.take(i as int), |x: i16| x as int), -0x8000, 0x1_0000),
        decreases arr.len() - i,
    {
        proof {
            lemma_wrapping_step(arr@, |x: i16| x as int, i as int, acc as int, -0x8000, 0x1_0000);
            lemma_wrap_near(acc + arr[i as int], -0x8000, 0x1_0000);
        }
        acc = acc.wrapping_add(arr[i]);
        i = i + 1;
    }
    assert(arr@.take(arr.len() as int) =~= arr@);
    acc
}

/// Sum of `i32` values, wrapping in two's complement modulo 2^32.
pub fn i32_sum(arr: Vec<i32>) -> (r: i32)
    ensures
        r as int == i32_total(arr@),
{
    let mut acc: i32 = 0;
    let mut i: usize = 0;
    proof {
        lemma_wrap_near(0, -0x8000_0000, 0x1_0000_0000);
    }
    while i < arr.len()
        invariant
            i <= arr.len(),
            acc as int == wrap(total_of(arr@.take(i as int), |x: i32| x as int), -0x8000_0000, 0x1_0000_0000),
        decreases arr.len() - i,
    {
        proof {
            lemma_wrapping_step(arr@, |x: i32| x as int, i as int, acc as int, -0x8000_0000, 0x1_0000_0000);
            lemma_wrap_near(acc + arr[i as int], -0x8000_0000, 0x1_0000_0000);
        }
        acc = acc.wrapping_add(arr[i]);
        i = i + 1;
    }
    assert(arr@.take(arr.len() as int) =~= arr@);
    acc
}

/// Sum of `i64` values, wrapping in two's complement modulo 2^64.
pub fn i64_sum(arr: Vec<i64>) -> (r: i64)
    ensures
        r as int == i64_total(arr@),
{
    let mut acc: i64 = 0;
    let mut i: usize = 0;
    proof {
        lemma_wrap_near(0, -0x8000_0000_0000_0000, 0x1_0000_0000_0000_0000);
    }
    while i < arr.len()
        invariant
            i <= arr.len(),
            acc as int == wrap(total_of(arr@.take(i as int), |x: i64| x as int), -0x8000_0000_0000_0000, 0x1_0000_0000_0000_0000),
        decreases arr.len() - i,
    {
        proof {
            lemma_wrapping_step(arr@, |x: i64| x as int, i as int, acc as int, -0x8000_0000_0000_0000, 0x1_0000_0000_0000_0000);
            lemma_wrap_near(acc + arr[i as int], -0x8000_0000_0000_0000, 0x1_0000_0000_0000_0000);
        }
        acc = acc.wrapping_add(arr[i]);
        i = i + 1;
    }
    assert(arr@.take(arr.len() as int) =~= arr@);
    acc
}

} // verus!
