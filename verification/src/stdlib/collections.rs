//! Collection operations on lists.

use vstd::prelude::*;
use vstd::std_specs::cmp::PartialEqSpec;

verus! {

/// Sum of a sequence of integers, as a mathematical integer.
pub open spec fn seq_sum(s: Seq<i64>) -> int
    decreases s.len(),
{
    if s.len() == 0 {
        0
    } else {
        seq_sum(s.drop_last()) + s.last()
    }
}

/// Every running total of `s` (folding from the left, starting at 0) fits in an `i64`.
pub open spec fn partial_sums_fit(s: Seq<i64>) -> bool {
    forall|k: int| 0 <= k <= s.len() ==> i64::MIN <= #[trigger] seq_sum(s.take(k)) <= i64::MAX
}

/// Sum of a list of integers.
pub fn sum_int(items: &[i64]) -> (r: i64)
    requires
        partial_sums_fit(items@),
    ensures
        r == seq_sum(items@),
{
    let mut acc: i64 = 0;
    let mut i: usize = 0;
    assert(items@.take(0) =~= Seq::<i64>::empty());
    while i < items.len()
        invariant
            0 <= i <= items.len(),
            partial_sums_fit(items@),
            acc == seq_sum(items@.take(i as int)),
        decreases items.len() - i,
    {
        assert(items@.take(i + 1).drop_last() =~= items@.take(i as int));
        assert(seq_sum(items@.take(i + 1)) == acc + items[i as int]);
        acc = acc + items[i];
        i += 1;
    }
    assert(items@.take(items.len() as int) =~= items@);
    acc
}


/// Product of a sequence of integers, as a mathematical integer (1 for the empty sequence).
pub open spec fn seq_product(s: Seq<i64>) -> int
    decreases s.len(),
{
    if s.len() == 0 {
        1
    } else {
        seq_product(s.drop_last()) * s.last()
    }
}

/// Every running product of `s` (folding from the left, starting at 1) fits in an `i64`.
pub open spec fn partial_products_fit(s: Seq<i64>) -> bool {
    forall|k: int|
        0 <= k <= s.len() ==> i64::MIN <= #[trigger] seq_product(s.take(k)) <= i64::MAX
}

/// Product of a list of integers.
pub fn product_int(items: &[i64]) -> (r: i64)
    requires
        partial_products_fit(items@),
    ensures
        r == seq_product(items@),
{
    let mut acc: i64 = 1;
    let mut i: usize = 0;
    assert(items@.take(0) =~= Seq::<i64>::empty());
    while i < items.len()
        invariant
            0 <= i <= items.len(),
            partial_products_fit(items@),
            acc == seq_product(items@.take(i as int)),
        decreases items.len() - i,
    {
        assert(items@.take(i + 1).drop_last() =~= items@.take(i as int));
        assert(seq_product(items@.take(i + 1)) == acc * items[i as int]);
        acc = acc * items[i];
        i += 1;
    }
    assert(items@.take(items.len() as int) =~= items@);
    acc
}

/// Cloning a `T` gives back an equal value (true of the integer types, `bool`, `char`, ...).
pub open spec fn clone_is_exact<T: Clone>() -> bool {
    forall|a: T, b: T| #[trigger] cloned(a, b) ==> a == b
}

/// `==` on `T` is structural equality (true of the integer types, `bool`, `char`, ...).
pub open spec fn eq_is_exact<T: PartialEq>() -> bool {
    &&& T::obeys_eq_spec()
    &&& forall|a: T, b: T| #[trigger] a.eq_spec(&b) <==> (a == b)
}

/// `b` holds, position by position, clones of the elements of `a`.
pub open spec fn clones_of<T: Clone>(a: Seq<T>, b: Seq<T>) -> bool {
    &&& b.len() == a.len()
    &&& forall|i: int| 0 <= i < a.len() ==> #[trigger] cloned(a[i], b[i])
}

/// Under exact cloning, a sequence of clones is the sequence itself.
pub proof fn lemma_clones_of_exact<T: Clone>(a: Seq<T>, b: Seq<T>)
    requires
        clone_is_exact::<T>(),
        clones_of(a, b),
    ensures
        b == a,
{
    assert forall|i: int| 0 <= i < a.len() implies b[i] == a[i] by {
        assert(cloned(a[i], b[i]));
    }
    assert(b =~= a);
}

/// The concatenation of a sequence of sequences.
pub open spec fn concat_all<T>(s: Seq<Seq<T>>) -> Seq<T>
    decreases s.len(),
{
    if s.len() == 0 {
        Seq::empty()
    } else {
        concat_all(s.drop_last()) + s.last()
    }
}

/// The contents of each list of a sequence of lists.
pub open spec fn views<T>(s: Seq<Vec<T>>) -> Seq<Seq<T>> {
    s.map_values(|v: Vec<T>| v@)
}

/// Flatten a 2D list.
pub fn flatten<T: Clone>(nested: &[Vec<T>]) -> (r: Vec<T>)
    ensures
        clones_of(concat_all(views(nested@)), r@),
{
    let mut result: Vec<T> = Vec::new();
    let mut i: usize = 0;
    assert(views(nested@.take(0)) =~= Seq::<Seq<T>>::empty());
    while i < nested.len()
        invariant
            0 <= i <= nested.len(),
            clones_of(concat_all(views(nested@.take(i as int))), result@),
        decreases nested.len() - i,
    {
        let inner = &nested[i];
        let ghost before = concat_all(views(nested@.take(i as int)));
        assert(views(nested@.take(i + 1)).drop_last() =~= views(nested@.take(i as int)));
        assert(views(nested@.take(i + 1)).last() == inner@);
        let mut j: usize = 0;
        while j < inner.len()
            invariant
                0 <= j <= inner.len(),
                result@.len() == before.len() + j,
                forall|k: int| 0 <= k < before.len() ==> #[trigger] cloned(before[k], result@[k]),
                forall|k: int| 0 <= k < j ==> #[trigger] cloned(inner@[k], result@[before.len() + k]),
            decreases inner.len() - j,
        {
            let x = inner[j].clone();
            result.push(x);
            j += 1;
        }
        let ghost after = concat_all(views(nested@.take(i + 1)));
        assert(after == before + inner@);
        assert forall|k: int| 0 <= k < after.len() implies #[trigger] cloned(after[k], result@[k]) by {
            if k < before.len() {
            } else {
                assert(cloned(inner@[k - before.len()], result@[before.len() + (k - before.len())]));
            }
        }
        i += 1;
    }
    assert(nested@.take(nested.len() as int) =~= nested@);
    result
}


/// The elements of `s` in order of first occurrence, each kept once.
pub open spec fn dedup_seq<T>(s: Seq<T>) -> Seq<T>
    decreases s.len(),
{
    if s.len() == 0 {
        Seq::empty()
    } else {
        let prev = dedup_seq(s.drop_last());
        if prev.contains(s.last()) {
            prev
        } else {
            prev.push(s.last())
        }
    }
}

/// Get unique elements (preserving order).
///
/// Where cloning and `==` are exact on `T` (as for integers), the result is the
/// first-occurrence deduplication of `items`.
pub fn unique<T: Clone + PartialEq>(items: &[T]) -> (r: Vec<T>)
    ensures
        clone_is_exact::<T>() && eq_is_exact::<T>() ==> r@ == dedup_seq(items@),
{
    let ghost exact = clone_is_exact::<T>() && eq_is_exact::<T>();
    let mut result: Vec<T> = Vec::new();
    let mut i: usize = 0;
    assert(items@.take(0) =~= Seq::<T>::empty());
    while i < items.len()
        invariant
            0 <= i <= items.len(),
            exact == (clone_is_exact::<T>() && eq_is_exact::<T>()),
            exact ==> result@ == dedup_seq(items@.take(i as int)),
        decreases items.len() - i,
    {
        let mut found = false;
        let mut j: usize = 0;
        while j < result.len()
            invariant
                0 <= j <= result.len(),
                i < items.len(),
                exact == (clone_is_exact::<T>() && eq_is_exact::<T>()),
                exact ==> (found <==> result@.take(j as int).contains(items@[i as int])),
            decreases result.len() - j,
        {
            let same = result[j] == items[i];
            proof {
                if exact {
                    assert(result@.take(j + 1) =~= result@.take(j as int).push(result@[j as int]));
                    assert(same == (result@[j as int] == items@[i as int]));
                    if same {
                        assert(result@.take(j + 1)[j as int] == items@[i as int]);
                    }
                    let t = result@.take(j + 1);
                    if t.contains(items@[i as int]) && !same {
                        let k = choose|k: int| 0 <= k < t.len() && t[k] == items@[i as int];
                        assert(result@.take(j as int)[k] == items@[i as int]);
                    }
                }
            }
            found = found || same;
            j += 1;
        }
        proof {
            assert(result@.take(result@.len() as int) =~= result@);
            assert(items@.take(i + 1).drop_last() =~= items@.take(i as int));
            assert(items@.take(i + 1).last() == items@[i as int]);
        }
        if !found {
            let x = items[i].clone();
            proof {
                if exact {
                    assert(cloned(items@[i as int], x));
                }
            }
            result.push(x);
        }
        i += 1;
    }
    assert(items@.take(items.len() as int) =~= items@);
    result
}

/// The result of deduplication holds no element twice.
pub proof fn lemma_dedup_no_duplicates<T>(s: Seq<T>)
    ensures
        dedup_seq(s).no_duplicates(),
    decreases s.len(),
{
    if s.len() > 0 {
        lemma_dedup_no_duplicates(s.drop_last());
    }
}

/// Deduplication keeps exactly the elements of the input.
pub proof fn lemma_dedup_same_elements<T>(s: Seq<T>)
    ensures
        forall|x: T| dedup_seq(s).contains(x) <==> s.contains(x),
    decreases s.len(),
{
    if s.len() > 0 {
        let init = s.drop_last();
        lemma_dedup_same_elements(init);
        assert forall|x: T| dedup_seq(s).contains(x) <==> s.contains(x) by {
            if s.contains(x) && x != s.last() {
                let k = choose|k: int| 0 <= k < s.len() && s[k] == x;
                assert(init[k] == x);
            }
            if init.contains(x) {
                let k = choose|k: int| 0 <= k < init.len() && init[k] == x;
                assert(s[k] == x);
            }
            if x == s.last() {
                assert(s[s.len() - 1] == x);
            }
            let prev = dedup_seq(init);
            if !prev.contains(s.last()) && dedup_seq(s).contains(x) && x != s.last() {
                let k = choose|k: int| 0 <= k < prev.len() + 1 && prev.push(s.last())[k] == x;
                assert(prev[k] == x);
            }
            if !prev.contains(s.last()) && prev.contains(x) {
                let k = choose|k: int| 0 <= k < prev.len() && prev[k] == x;
                assert(prev.push(s.last())[k] == x);
            }
            if !prev.contains(s.last()) && x == s.last() {
                assert(prev.push(s.last())[prev.len() as int] == x);
            }
        }
    }
}

/// Chunk a list into groups of `size` elements; the last group may be shorter.
///
/// The number of groups is the least `n` with `n * size >= items.len()`; group `k`
/// holds clones of `items[k * size .. min((k + 1) * size, len)]`, so the groups
/// concatenate back to the input.
pub fn chunk<T: Clone>(items: &[T], size: usize) -> (r: Vec<Vec<T>>)
    requires
        size > 0,
    ensures
        r.len() * size >= items.len(),
        r.len() == 0 || (r.len() - 1) * size < items.len(),
        forall|k: int|
            0 <= k < r.len() ==> clones_of(
                items@.subrange(
                    k * size,
                    if (k + 1) * size <= items.len() { (k + 1) * size } else { items.len() as int },
                ),
                #[trigger] r[k]@,
            ),
        clones_of(items@, concat_all(views(r@))),
{
    let len = items.len();
    let mut result: Vec<Vec<T>> = Vec::new();
    let mut start: usize = 0;
    assert(views(result@) =~= Seq::<Seq<T>>::empty());
    assert(result.len() * size == 0) by (nonlinear_arith)
        requires
            result.len() == 0,
    ;
    while start < len
        invariant
            size > 0,
            len == items.len(),
            start <= len,
            start == (if result.len() * size <= len { result.len() * size } else { len as int }),
            result.len() == 0 || (result.len() - 1) * size < len,
            forall|k: int|
                0 <= k < result.len() ==> clones_of(
                    items@.subrange(
                        k * size,
                        if (k + 1) * size <= len { (k + 1) * size } else { len as int },
                    ),
                    #[trigger] result[k]@,
                ),
            clones_of(items@.take(start as int), concat_all(views(result@))),
        decreases len - start,
    {
        let end: usize = if len - start > size {
            start + size
        } else {
            len
        };
        let ghost n = result.len();
        assert(start == n * size);
        assert((n + 1) * size == n * size + size) by (nonlinear_arith);
        let mut group: Vec<T> = Vec::new();
        let mut j: usize = start;
        while j < end
            invariant
                start <= j <= end,
                end <= len,
                len == items.len(),
                group@.len() == j - start,
                forall|k: int| 0 <= k < j - start ==> #[trigger] cloned(items@[start + k], group@[k]),
            decreases end - j,
        {
            let x = items[j].clone();
            group.push(x);
            j += 1;
        }
        let ghost prev_flat = concat_all(views(result@));
        let ghost prev_result = result@;
        result.push(group);
        proof {
            let sub = items@.subrange(start as int, end as int);
            assert(clones_of(sub, group@)) by {
                assert forall|k: int| 0 <= k < sub.len() implies #[trigger] cloned(sub[k], group@[k]) by {
                    assert(cloned(items@[start + k], group@[k]));
                }
            }
            assert(views(result@).drop_last() =~= views(result@.drop_last()));
            assert(result@.drop_last() =~= prev_result);
            assert(views(result@).last() == group@);
            assert(end == (if (n + 1) * size <= len { (n + 1) * size } else { len as int }));
            assert forall|k: int| 0 <= k < result.len() implies clones_of(
                items@.subrange(
                    k * size,
                    if (k + 1) * size <= len { (k + 1) * size } else { len as int },
                ),
                #[trigger] result[k]@,
            ) by {
                if k == n {
                    assert(k * size == start);
                }
            }
            let new_flat = concat_all(views(result@));
            assert(new_flat == prev_flat + group@);
            assert forall|k: int| 0 <= k < end implies #[trigger] cloned(
                items@.take(end as int)[k],
                new_flat[k],
            ) by {
                if k < start {
                    assert(items@.take(start as int)[k] == items@.take(end as int)[k]);
                    assert(cloned(items@.take(start as int)[k], prev_flat[k]));
                } else {
                    assert(cloned(sub[k - start], group@[k - start]));
                }
            }
            if end < len {
                assert((n + 1) * size <= len);
            } else {
                assert(n * size < len);
            }
        }
        start = end;
    }
    assert(items@.take(len as int) =~= items@);
    result
}


/// Zip two lists together, stopping at the shorter one.
pub fn zip_lists<A: Clone, B: Clone>(a: &[A], b: &[B]) -> (r: Vec<(A, B)>)
    ensures
        r.len() == if a.len() <= b.len() { a.len() } else { b.len() },
        forall|i: int|
            0 <= i < r.len() ==> cloned(a@[i], (#[trigger] r@[i]).0) && cloned(b@[i], r@[i].1),
{
    let n = if a.len() <= b.len() {
        a.len()
    } else {
        b.len()
    };
    let mut result: Vec<(A, B)> = Vec::new();
    let mut i: usize = 0;
    while i < n
        invariant
            i <= n,
            n <= a.len(),
            n <= b.len(),
            result.len() == i,
            forall|k: int|
                0 <= k < i ==> cloned(a@[k], (#[trigger] result@[k]).0) && cloned(b@[k], result@[k].1),
        decreases n - i,
    {
        let x = a[i].clone();
        let y = b[i].clone();
        result.push((x, y));
        i += 1;
    }
    result
}

/// Pair each element with its index.
pub fn enumerate_list<T: Clone>(items: &[T]) -> (r: Vec<(usize, T)>)
    ensures
        r.len() == items.len(),
        forall|i: int| 0 <= i < r.len() ==> #[trigger] r@[i].0 == i && cloned(items@[i], r@[i].1),
{
    let mut result: Vec<(usize, T)> = Vec::new();
    let mut i: usize = 0;
    while i < items.len()
        invariant
            i <= items.len(),
            result.len() == i,
            forall|k: int|
                0 <= k < i ==> #[trigger] result@[k].0 == k && cloned(items@[k], result@[k].1),
        decreases items.len() - i,
    {
        let x = items[i].clone();
        result.push((i, x));
        i += 1;
    }
    result
}

/// The smaller of a count and a length.
pub open spec fn clamp_count(n: int, len: int) -> int {
    if n <= len {
        n
    } else {
        len
    }
}

/// Take the first `n` elements (all of them when there are fewer).
pub fn take<T: Clone>(items: &[T], n: usize) -> (r: Vec<T>)
    ensures
        clones_of(items@.take(clamp_count(n as int, items.len() as int)), r@),
{
    let m = if n <= items.len() {
        n
    } else {
        items.len()
    };
    let mut result: Vec<T> = Vec::new();
    let mut i: usize = 0;
    while i < m
        invariant
            i <= m,
            m <= items.len(),
            m == clamp_count(n as int, items.len() as int),
            result.len() == i,
            forall|k: int| 0 <= k < i ==> #[trigger] cloned(items@[k], result@[k]),
        decreases m - i,
    {
        let x = items[i].clone();
        result.push(x);
        i += 1;
    }
    result
}

/// Skip the first `n` elements (nothing is left when there are fewer).
pub fn skip<T: Clone>(items: &[T], n: usize) -> (r: Vec<T>)
    ensures
        clones_of(items@.skip(clamp_count(n as int, items.len() as int)), r@),
{
    let m = if n <= items.len() {
        n
    } else {
        items.len()
    };
    let mut result: Vec<T> = Vec::new();
    let mut i: usize = m;
    while i < items.len()
        invariant
            m <= i <= items.len(),
            m == clamp_count(n as int, items.len() as int),
            result.len() == i - m,
            forall|k: int| 0 <= k < i - m ==> #[trigger] cloned(items@[m + k], result@[k]),
        decreases items.len() - i,
    {
        let x = items[i].clone();
        result.push(x);
        i += 1;
    }
    proof {
        let sk = items@.skip(m as int);
        assert forall|k: int| 0 <= k < sk.len() implies #[trigger] cloned(sk[k], result@[k]) by {
            assert(cloned(items@[m + k], result@[k]));
        }
    }
    result
}

/// What `take` keeps and what `skip` keeps, for the same count, make up the whole list.
pub proof fn lemma_take_then_skip<T>(items: Seq<T>, n: nat)
    ensures
        items.take(clamp_count(n as int, items.len() as int)) + items.skip(
            clamp_count(n as int, items.len() as int),
        ) == items,
{
    let m = clamp_count(n as int, items.len() as int);
    assert(items.take(m) + items.skip(m) =~= items);
}

/// Whether any element is `true`.
pub fn any_true(items: &[bool]) -> (r: bool)
    ensures
        r == exists|i: int| 0 <= i < items.len() && items@[i],
{
    let mut i: usize = 0;
    while i < items.len()
        invariant
            i <= items.len(),
            forall|k: int| 0 <= k < i ==> !items@[k],
        decreases items.len() - i,
    {
        if items[i] {
            return true;
        }
        i += 1;
    }
    false
}

/// Whether every element is `true` (so `true` for the empty list).
pub fn all_true(items: &[bool]) -> (r: bool)
    ensures
        r == forall|i: int| 0 <= i < items.len() ==> items@[i],
{
    let mut i: usize = 0;
    while i < items.len()
        invariant
            i <= items.len(),
            forall|k: int| 0 <= k < i ==> items@[k],
        decreases items.len() - i,
    {
        if !items[i] {
            return false;
        }
        i += 1;
    }
    true
}

/// Number of `true` entries of a sequence.
pub open spec fn count_trues(s: Seq<bool>) -> nat
    decreases s.len(),
{
    if s.len() == 0 {
        0
    } else {
        count_trues(s.drop_last()) + if s.last() {
            1nat
        } else {
            0nat
        }
    }
}

/// Count the elements that are `true`.
pub fn count_true(items: &[bool]) -> (r: usize)
    ensures
        r == count_trues(items@),
{
    let mut n: usize = 0;
    let mut i: usize = 0;
    assert(items@.take(0) =~= Seq::<bool>::empty());
    while i < items.len()
        invariant
            i <= items.len(),
            n == count_trues(items@.take(i as int)),
            n <= i,
        decreases items.len() - i,
    {
        assert(items@.take(i + 1).drop_last() =~= items@.take(i as int));
        if items[i] {
            n += 1;
        }
        i += 1;
    }
    assert(items@.take(items.len() as int) =~= items@);
    n
}

/// The number of `true` entries is positive exactly when some entry is `true`, and
/// equals the length exactly when every entry is `true`.
pub proof fn lemma_count_trues_any_all(s: Seq<bool>)
    ensures
        (count_trues(s) > 0) == (exists|i: int| 0 <= i < s.len() && s[i]),
        (count_trues(s) == s.len()) == (forall|i: int| 0 <= i < s.len() ==> s[i]),
        count_trues(s) <= s.len(),
    decreases s.len(),
{
    if s.len() > 0 {
        let init = s.drop_last();
        lemma_count_trues_any_all(init);
        if exists|i: int| 0 <= i < init.len() && init[i] {
            let i = choose|i: int| 0 <= i < init.len() && init[i];
            assert(s[i]);
        }
        if exists|i: int| 0 <= i < s.len() && s[i] {
            let i = choose|i: int| 0 <= i < s.len() && s[i];
            if i < init.len() {
                assert(init[i]);
            }
        }
        if forall|i: int| 0 <= i < s.len() ==> s[i] {
            assert forall|i: int| 0 <= i < init.len() implies init[i] by {
                assert(s[i]);
            }
        }
        if !s.last() {
            assert(!s[s.len() - 1]);
        }
        if (forall|i: int| 0 <= i < init.len() ==> init[i]) && s.last() {
            assert forall|i: int| 0 <= i < s.len() implies s[i] by {
                if i < init.len() {
                    assert(init[i]);
                }
            }
        }
        if exists|i: int| 0 <= i < init.len() && !init[i] {
            let i = choose|i: int| 0 <= i < init.len() && !init[i];
            assert(!s[i]);
        }
    }
}

/// The integers `start, start + 1, ..., end - 1` (empty when `end <= start`).
pub open spec fn range_seq(start: i64, end: i64) -> Seq<i64> {
    Seq::new(if start < end { (end - start) as nat } else { 0 }, |k: int| (start + k) as i64)
}

/// Range from `start` (inclusive) to `end` (exclusive).
pub fn range_int(start: i64, end: i64) -> (r: Vec<i64>)
    requires
        end - start <= usize::MAX,
    ensures
        r@ == range_seq(start, end),
{
    let mut result: Vec<i64> = Vec::new();
    if start >= end {
        assert(result@ =~= range_seq(start, end));
        return result;
    }
    let mut i: i64 = start;
    while i < end
        invariant
            start <= i <= end,
            result.len() == i - start,
            forall|k: int| 0 <= k < result.len() ==> #[trigger] result@[k] == start + k,
        decreases end - i,
    {
        result.push(i);
        i += 1;
    }
    assert(result@ =~= range_seq(start, end));
    result
}


/// How many values `range_step` produces: the values `start + k * step` for `k = 0, 1, ...`
/// while they stay below `end` (for a positive step) or above `end` (for a negative step).
pub open spec fn step_count(start: i64, end: i64, step: i64) -> nat {
    if step > 0 && start < end {
        ((end - start - 1) / (step as int) + 1) as nat
    } else if step < 0 && start > end {
        ((start - end - 1) / (-step) + 1) as nat
    } else {
        0
    }
}

/// The values `start + k * step` for `k < step_count(start, end, step)`.
pub open spec fn range_step_seq(start: i64, end: i64, step: i64) -> Seq<i64> {
    Seq::new(step_count(start, end, step), |k: int| (start + k * step) as i64)
}

/// For a positive step, `start + k * step` is below `end` exactly for `k < step_count`.
proof fn lemma_step_count_pos(start: int, end: int, step: int, k: int)
    requires
        step > 0,
        start < end,
        k >= 0,
    ensures
        (start + k * step < end) <==> k < (end - start - 1) / step + 1,
        k * step >= 0,
{
    let d = end - start - 1;
    let q = d / step;
    vstd::arithmetic::div_mod::lemma_fundamental_div_mod(d, step);
    assert(d == step * q + d % step);
    assert(0 <= d % step < step) by {
        vstd::arithmetic::div_mod::lemma_mod_bound(d, step);
    }
    assert(k * step >= 0) by (nonlinear_arith)
        requires
            k >= 0,
            step > 0,
    ;
    if k <= q {
        assert(k * step <= q * step) by (nonlinear_arith)
            requires
                k <= q,
                step > 0,
        ;
        assert(q * step == step * q) by (nonlinear_arith);
    } else {
        assert(k * step >= (q + 1) * step) by (nonlinear_arith)
            requires
                k >= q + 1,
                step > 0,
        ;
        assert((q + 1) * step == step * q + step) by (nonlinear_arith);
    }
}

/// Multiplying by a positive step preserves order.
proof fn lemma_mul_step_mono(a: int, b: int, step: int)
    requires
        0 <= a <= b,
        step > 0,
    ensures
        a * step <= b * step,
        (a + 1) * step == a * step + step,
{
    assert(a * step <= b * step) by (nonlinear_arith)
        requires
            a <= b,
            step > 0,
    ;
    assert((a + 1) * step == a * step + step) by (nonlinear_arith);
}

/// Range from `start` towards `end` (exclusive) by `step`; empty for a zero step.
pub fn range_step(start: i64, end: i64, step: i64) -> (r: Vec<i64>)
    requires
        step_count(start, end, step) <= usize::MAX,
        i64::MIN <= start + step_count(start, end, step) * step <= i64::MAX,
    ensures
        r@ == range_step_seq(start, end, step),
{
    let ghost count = step_count(start, end, step) as int;
    let mut result: Vec<i64> = Vec::new();
    if step == 0 {
        assert(result@ =~= range_step_seq(start, end, step));
        return result;
    }
    let mut i: i64 = start;
    if step > 0 {
        while i < end
            invariant
                step > 0,
                count == step_count(start, end, step),
                i64::MIN <= start + count * step <= i64::MAX,
                result.len() <= count,
                i == start + result.len() * step,
                forall|k: int| 0 <= k < result.len() ==> #[trigger] result@[k] == start + k * step,
            decreases count - result.len(),
        {
            let ghost k = result.len() as int;
            proof {
                lemma_step_count_pos(start as int, end as int, step as int, k);
                assert(start < end);
                lemma_mul_step_mono(k + 1, count, step as int);
                lemma_mul_step_mono(k, k, step as int);
            }
            result.push(i);
            i = i + step;
        }
        proof {
            if start < end {
                lemma_step_count_pos(start as int, end as int, step as int, result.len() as int);
            } else {
                assert(result.len() * step >= 0) by (nonlinear_arith)
                    requires
                        step > 0,
                ;
            }
        }
    } else {
        while i > end
            invariant
                step < 0,
                count == step_count(start, end, step),
                i64::MIN <= start + count * step <= i64::MAX,
                result.len() <= count,
                i == start + result.len() * step,
                forall|k: int| 0 <= k < result.len() ==> #[trigger] result@[k] == start + k * step,
            decreases count - result.len(),
        {
            let ghost k = result.len() as int;
            proof {
                assert(k * (-(step as int)) == -(k * step)) by (nonlinear_arith);
                lemma_step_count_pos(-(start as int), -(end as int), -(step as int), k);
                assert(k + 1 <= count);
                lemma_mul_step_mono(k + 1, count, -(step as int));
                lemma_mul_step_mono(k, k, -(step as int));
                assert((k + 1) * (-(step as int)) == -((k + 1) * step)) by (nonlinear_arith);
                assert(count * (-(step as int)) == -(count * step)) by (nonlinear_arith);
            }
            result.push(i);
            i = i + step;
        }
        proof {
            let k = result.len() as int;
            assert(k * (-(step as int)) == -(k * step)) by (nonlinear_arith);
            if start > end {
                lemma_step_count_pos(-(start as int), -(end as int), -(step as int), k);
            } else {
                assert(k * (-(step as int)) >= 0) by (nonlinear_arith)
                    requires
                        step < 0,
                        k >= 0,
                ;
            }
        }
    }
    assert(result@ =~= range_step_seq(start, end, step));
    result
}

/// A unit step walks the same values as the plain range.
pub proof fn lemma_range_step_one(start: i64, end: i64)
    ensures
        range_step_seq(start, end, 1) == range_seq(start, end),
{
    assert(range_step_seq(start, end, 1) =~= range_seq(start, end));
}

} // verus!
