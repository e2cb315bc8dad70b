//! Selection of the largest element of a non-empty slice.
//!
//! Every selector scans from the front and replaces its running choice only
//! when a later element is strictly greater, so among equal candidates the
//! earliest one is kept.

use vstd::prelude::*;
use vstd::std_specs::cmp::PartialOrdIs;
use vstd::std_specs::cmp::PartialOrdSpec;

verus! {

/// The strict "greater than" of `i32`.
pub open spec fn i32_gt() -> spec_fn(i32, i32) -> bool {
    |a: i32, b: i32| a > b
}

/// The strict "greater than" of `char`, which orders by code point.
pub open spec fn char_gt() -> spec_fn(char, char) -> bool {
    |a: char, b: char| a > b
}

/// The strict "greater than" that `T` declares for its `>` operator.
pub open spec fn ord_gt<T: PartialOrd>() -> spec_fn(T, T) -> bool {
    |a: T, b: T| a.is_gt(&b)
}

/// The `>` operator of `T` computes what `T` declares as its ordering. It
/// holds of the integer types; every other type says for itself whether it
/// does.
pub open spec fn has_declared_order<T: PartialOrd>() -> bool {
    T::obeys_partial_cmp_spec()
}

/// The binary maximum under `gt`: the newcomer replaces the running choice
/// only when it is strictly greater.
pub open spec fn keep_larger<T>(gt: spec_fn(T, T) -> bool) -> spec_fn(T, T) -> T {
    |acc: T, item: T| if gt(item, acc) { item } else { acc }
}

/// The value obtained by folding `s` from the left with the binary maximum,
/// starting from its first element.
pub open spec fn fold_max<T>(s: Seq<T>, gt: spec_fn(T, T) -> bool) -> T
    recommends
        s.len() > 0,
{
    s.drop_first().fold_left(s[0], keep_larger(gt))
}

/// The position that a front-to-back scan settles on: it moves to a later
/// position only for a strictly greater element.
pub open spec fn max_position<T>(s: Seq<T>, gt: spec_fn(T, T) -> bool) -> int
    decreases s.len(),
{
    if s.len() <= 1 {
        0
    } else {
        let before = max_position(s.drop_last(), gt);
        if gt(s.last(), s[before]) {
            s.len() - 1
        } else {
            before
        }
    }
}

/// `gt` is a strict order in which being "not greater" is transitive, as the
/// `>` of any totally ordered type is.
pub open spec fn strict_weak_order<T>(gt: spec_fn(T, T) -> bool) -> bool {
    &&& forall|a: T| !#[trigger] gt(a, a)
    &&& forall|a: T, b: T, c: T| #[trigger] gt(a, b) && #[trigger] gt(b, c) ==> gt(a, c)
    &&& forall|a: T, b: T, c: T| !#[trigger] gt(a, b) && !#[trigger] gt(b, c) ==> !gt(a, c)
}

/// The scan position lies inside a non-empty sequence.
pub proof fn lemma_max_position_in_range<T>(s: Seq<T>, gt: spec_fn(T, T) -> bool)
    requires
        s.len() > 0,
    ensures
        0 <= max_position(s, gt) < s.len(),
    decreases s.len(),
{
    if s.len() > 1 {
        lemma_max_position_in_range(s.drop_last(), gt);
    }
}

/// Folding a non-empty sequence with the binary maximum yields exactly the
/// element at the scan position.
pub proof fn lemma_fold_max_at_position<T>(s: Seq<T>, gt: spec_fn(T, T) -> bool)
    requires
        s.len() > 0,
    ensures
        fold_max(s, gt) == s[max_position(s, gt)],
    decreases s.len(),
{
    if s.len() > 1 {
        let front = s.drop_last();
        lemma_fold_max_at_position(front, gt);
        lemma_max_position_in_range(front, gt);
        assert(s.drop_first().drop_last() =~= front.drop_first());
        assert(front[0] == s[0]);
        assert(s.drop_first().last() == s.last());
    } else {
        assert(s.drop_first() =~= Seq::<T>::empty());
    }
}

/// Under a strict weak order the scan position is the first occurrence of the
/// maximum: nothing in the sequence is greater than the element there, and
/// everything before it is strictly smaller.
pub proof fn lemma_first_occurrence_wins<T>(s: Seq<T>, gt: spec_fn(T, T) -> bool)
    requires
        s.len() > 0,
        strict_weak_order(gt),
    ensures
        forall|j: int| 0 <= j < s.len() ==> !gt(#[trigger] s[j], s[max_position(s, gt)]),
        forall|j: int| 0 <= j < max_position(s, gt) ==> gt(s[max_position(s, gt)], #[trigger] s[j]),
    decreases s.len(),
{
    if s.len() > 1 {
        let front = s.drop_last();
        lemma_first_occurrence_wins(front, gt);
        lemma_max_position_in_range(front, gt);
        let before = max_position(front, gt);
        assert(forall|j: int| 0 <= j < front.len() ==> front[j] == s[j]);
        if gt(s.last(), s[before]) {
            assert forall|j: int| 0 <= j < s.len() implies !gt(#[trigger] s[j], s.last()) by {
                if j < front.len() {
                    assert(!gt(front[j], s[before]));
                    if gt(s[j], s.last()) {
                        assert(gt(s[j], s[before]));
                    }
                }
            }
            assert forall|j: int| 0 <= j < s.len() - 1 implies gt(s.last(), #[trigger] s[j]) by {
                assert(!gt(front[j], s[before]));
                if !gt(s.last(), s[j]) {
                    assert(!gt(s.last(), s[before]));
                }
            }
        } else {
            assert forall|j: int| 0 <= j < s.len() implies !gt(#[trigger] s[j], s[before]) by {
                if j < front.len() {
                    assert(!gt(front[j], s[before]));
                }
            }
            assert forall|j: int| 0 <= j < before implies gt(s[before], #[trigger] s[j]) by {
                assert(gt(front[before], front[j]));
            }
        }
    }
}

/// Extending a prefix by one element moves the scan position exactly when the
/// new element is strictly greater than the current choice.
proof fn lemma_scan_step<T>(s: Seq<T>, gt: spec_fn(T, T) -> bool, n: int)
    requires
        1 <= n < s.len(),
    ensures
        s.take(n + 1).drop_last() == s.take(n),
        max_position(s.take(n + 1), gt) == if gt(s[n], s[max_position(s.take(n), gt)]) {
            n
        } else {
            max_position(s.take(n), gt)
        },
        0 <= max_position(s.take(n), gt) < n,
{
    assert(s.take(n + 1).drop_last() =~= s.take(n));
    lemma_max_position_in_range(s.take(n), gt);
}

/// Returns the largest number of a non-empty slice.
pub fn largest_i32(list: &[i32]) -> (r: i32)
    requires
        list@.len() > 0,
    ensures
        r == fold_max(list@, i32_gt()),
        r == list@[max_position(list@, i32_gt())],
        forall|j: int| 0 <= j < list@.len() ==> list@[j] <= r,
        forall|j: int| 0 <= j < max_position(list@, i32_gt()) ==> list@[j] < r,
{
    let mut largest: i32 = list[0];
    let ghost mut at: int = 0;
    let mut index: usize = 1;
    while index < list.len()
        invariant
            1 <= index <= list@.len(),
            at == max_position(list@.take(index as int), i32_gt()),
            0 <= at < index,
            largest == list@[at],
        decreases list@.len() - index,
    {
        proof {
            lemma_scan_step(list@, i32_gt(), index as int);
        }
        let item: i32 = list[index];
        if item > largest {
            largest = item;
            proof {
                at = index as int;
            }
        }
        index += 1;
    }
    proof {
        assert(list@.take(index as int) =~= list@);
        lemma_fold_max_at_position(list@, i32_gt());
        lemma_first_occurrence_wins(list@, i32_gt());
    }
    largest
}

/// Returns the largest character of a non-empty slice, by code point.
pub fn largest_char(list: &[char]) -> (r: char)
    requires
        list@.len() > 0,
    ensures
        r == fold_max(list@, char_gt()),
        r == list@[max_position(list@, char_gt())],
        forall|j: int| 0 <= j < list@.len() ==> list@[j] <= r,
        forall|j: int| 0 <= j < max_position(list@, char_gt()) ==> list@[j] < r,
{
    let mut largest: char = list[0];
    let ghost mut at: int = 0;
    let mut index: usize = 1;
    while index < list.len()
        invariant
            1 <= index <= list@.len(),
            at == max_position(list@.take(index as int), char_gt()),
            0 <= at < index,
            largest == list@[at],
        decreases list@.len() - index,
    {
        proof {
            lemma_scan_step(list@, char_gt(), index as int);
        }
        let item: char = list[index];
        if item > largest {
            largest = item;
            proof {
                at = index as int;
            }
        }
        index += 1;
    }
    proof {
        assert(list@.take(index as int) =~= list@);
        lemma_fold_max_at_position(list@, char_gt());
        lemma_first_occurrence_wins(list@, char_gt());
    }
    largest
}

/// Returns a copy of the largest element of a non-empty slice.
///
/// The result is always one of the elements. Which one is stated for every
/// type whose `>` follows its declared ordering.
pub fn largest<T: PartialOrd + Copy>(list: &[T]) -> (r: T)
    requires
        list@.len() > 0,
    ensures
        list@.contains(r),
        has_declared_order::<T>() ==> r == fold_max(list@, ord_gt::<T>()),
        has_declared_order::<T>() ==> r == list@[max_position(list@, ord_gt::<T>())],
{
    let mut largest: T = list[0];
    let ghost mut at: int = 0;
    let mut index: usize = 1;
    while index < list.len()
        invariant
            1 <= index <= list@.len(),
            has_declared_order::<T>() ==> at == max_position(
                list@.take(index as int),
                ord_gt::<T>(),
            ),
            0 <= at < index,
            largest == list@[at],
        decreases list@.len() - index,
    {
        proof {
            lemma_scan_step(list@, ord_gt::<T>(), index as int);
        }
        let item: T = list[index];
        if item > largest {
            largest = item;
            proof {
                at = index as int;
            }
        }
        index += 1;
    }
    proof {
        assert(list@.take(index as int) =~= list@);
        lemma_fold_max_at_position(list@, ord_gt::<T>());
    }
    largest
}

/// Returns a duplicate of the largest element of a non-empty slice.
///
/// Elements are compared where they lie; only an element that becomes the
/// running choice is duplicated.
pub fn largest_clone<T: PartialOrd + Clone>(list: &[T]) -> (r: T)
    requires
        list@.len() > 0,
    ensures
        exists|i: int| 0 <= i < list@.len() && cloned(#[trigger] list@[i], r),
        has_declared_order::<T>() ==> cloned(fold_max(list@, ord_gt::<T>()), r),
        has_declared_order::<T>() ==> cloned(list@[max_position(list@, ord_gt::<T>())], r),
{
    let mut largest: T = list[0].clone();
    let mut best: usize = 0;
    let mut index: usize = 1;
    while index < list.len()
        invariant
            1 <= index <= list@.len(),
            has_declared_order::<T>() ==> best == max_position(
                list@.take(index as int),
                ord_gt::<T>(),
            ),
            0 <= best < index,
            cloned(list@[best as int], largest),
        decreases list@.len() - index,
    {
        proof {
            lemma_scan_step(list@, ord_gt::<T>(), index as int);
        }
        if list[index] > list[best] {
            largest = list[index].clone();
            best = index;
        }
        index += 1;
    }
    proof {
        assert(list@.take(index as int) =~= list@);
        lemma_fold_max_at_position(list@, ord_gt::<T>());
    }
    largest
}

/// Returns a reference to the largest element of a non-empty slice; nothing
/// is copied.
pub fn largest_ref<T: PartialOrd>(list: &[T]) -> (r: &T)
    requires
        list@.len() > 0,
    ensures
        list@.contains(*r),
        has_declared_order::<T>() ==> *r == fold_max(list@, ord_gt::<T>()),
        has_declared_order::<T>() ==> *r == list@[max_position(list@, ord_gt::<T>())],
{
    let mut largest: &T = &list[0];
    let ghost mut at: int = 0;
    let mut index: usize = 1;
    while index < list.len()
        invariant
            1 <= index <= list@.len(),
            has_declared_order::<T>() ==> at == max_position(
                list@.take(index as int),
                ord_gt::<T>(),
            ),
            0 <= at < index,
            *largest == list@[at],
        decreases list@.len() - index,
    {
        proof {
            lemma_scan_step(list@, ord_gt::<T>(), index as int);
        }
        let item: &T = &list[index];
        if *item > *largest {
            largest = item;
            proof {
                at = index as int;
            }
        }
        index += 1;
    }
    proof {
        assert(list@.take(index as int) =~= list@);
        lemma_fold_max_at_position(list@, ord_gt::<T>());
    }
    largest
}

/// Two relations that agree on every pair make the scan settle on the same
/// position, and so give the same fold.
pub proof fn lemma_same_relation_same_choice<T>(
    s: Seq<T>,
    gt1: spec_fn(T, T) -> bool,
    gt2: spec_fn(T, T) -> bool,
)
    requires
        s.len() > 0,
        forall|a: T, b: T| #[trigger] gt1(a, b) == gt2(a, b),
    ensures
        max_position(s, gt1) == max_position(s, gt2),
        fold_max(s, gt1) == fold_max(s, gt2),
    decreases s.len(),
{
    if s.len() > 1 {
        lemma_same_relation_same_choice(s.drop_last(), gt1, gt2);
    }
    lemma_fold_max_at_position(s, gt1);
    lemma_fold_max_at_position(s, gt2);
}

/// The three generic selectors agree: on one non-empty slice the copy and the
/// referenced element are the same value, namely the fold of the slice with
/// the binary maximum, and the duplicate is a clone of that value.
pub proof fn lemma_selectors_agree<T: PartialOrd + Copy>(
    list: &[T],
    by_copy: T,
    by_clone: T,
    by_ref: &T,
)
    requires
        list@.len() > 0,
        has_declared_order::<T>(),
        call_ensures(largest::<T>, (list,), by_copy),
        call_ensures(largest_clone::<T>, (list,), by_clone),
        call_ensures(largest_ref::<T>, (list,), by_ref),
    ensures
        by_copy == fold_max(list@, ord_gt::<T>()),
        *by_ref == by_copy,
        cloned(by_copy, by_clone),
{
}

/// On numbers the dedicated selector and the three generic ones all return the
/// same value.
pub proof fn lemma_i32_selectors_agree(
    list: &[i32],
    plain: i32,
    by_copy: i32,
    by_clone: i32,
    by_ref: &i32,
)
    requires
        list@.len() > 0,
        call_ensures(largest_i32, (list,), plain),
        call_ensures(largest::<i32>, (list,), by_copy),
        call_ensures(largest_clone::<i32>, (list,), by_clone),
        call_ensures(largest_ref::<i32>, (list,), by_ref),
    ensures
        plain == fold_max(list@, i32_gt()),
        by_copy == plain,
        by_clone == plain,
        *by_ref == plain,
{
    lemma_same_relation_same_choice(list@, i32_gt(), ord_gt::<i32>());
}

} // verus!
