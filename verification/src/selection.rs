//! Coin selection: the eligibility filter, the ascending sort, the covering
//! search, the sliding-window pass with its unrestricted fallback, and the
//! best-effort diagnostic result when no covering set exists.
//!
//! Both asset ledgers share one generic algorithm over [`Spendable`] records;
//! only the eligibility predicates differ.

use vstd::prelude::*;
use vstd::seq_lib::group_to_multiset_ensures;
use crate::types::{Identifier, OutputData, TokenOutputData, Wallet};

verus! {

/// A spendable value record of either asset.
pub trait Spendable: Sized + Copy {
    spec fn spec_value(self) -> u64;

    fn value(&self) -> (v: u64)
        ensures
            v == self.spec_value(),
    ;
}

impl Spendable for OutputData {
    open spec fn spec_value(self) -> u64 {
        self.value
    }

    fn value(&self) -> u64 {
        self.value
    }
}

impl Spendable for TokenOutputData {
    open spec fn spec_value(self) -> u64 {
        self.value
    }

    fn value(&self) -> u64 {
        self.value
    }
}

/// Sum of the values of a sequence of records, as an unbounded integer.
pub open spec fn sum_values<T: Spendable>(s: Seq<T>) -> int
    decreases s.len(),
{
    if s.len() == 0 {
        0
    } else {
        sum_values(s.drop_last()) + s.last().spec_value()
    }
}

pub proof fn lemma_sum_nonneg<T: Spendable>(s: Seq<T>)
    ensures
        sum_values(s) >= 0,
    decreases s.len(),
{
    if s.len() > 0 {
        lemma_sum_nonneg(s.drop_last());
    }
}

pub proof fn lemma_sum_push<T: Spendable>(s: Seq<T>, x: T)
    ensures
        sum_values(s.push(x)) == sum_values(s) + x.spec_value(),
{
    assert(s.push(x).drop_last() =~= s);
}

/// One step of a prefix sum.
pub proof fn lemma_sum_take_succ<T: Spendable>(s: Seq<T>, i: int)
    requires
        0 <= i < s.len(),
    ensures
        sum_values(s.take(i + 1)) == sum_values(s.take(i)) + s[i].spec_value(),
{
    assert(s.take(i + 1).drop_last() =~= s.take(i));
    assert(s.take(i + 1).last() == s[i]);
}

/// The sum splits at any cut point.
pub proof fn lemma_sum_split<T: Spendable>(s: Seq<T>, i: int)
    requires
        0 <= i <= s.len(),
    ensures
        sum_values(s) == sum_values(s.take(i)) + sum_values(s.skip(i)),
    decreases s.len(),
{
    if i == s.len() {
        assert(s.take(i) =~= s);
        assert(s.skip(i) =~= Seq::<T>::empty());
    } else {
        lemma_sum_split(s.drop_last(), i);
        assert(s.take(i) =~= s.drop_last().take(i));
        assert(s.skip(i).drop_last() =~= s.drop_last().skip(i));
        assert(s.skip(i).last() == s.last());
    }
}

/// A prefix never sums to more than the whole.
pub proof fn lemma_sum_take_le<T: Spendable>(s: Seq<T>, i: int)
    requires
        0 <= i <= s.len(),
    ensures
        sum_values(s.take(i)) <= sum_values(s),
{
    lemma_sum_split(s, i);
    lemma_sum_nonneg(s.skip(i));
}

/// A contiguous window never sums to more than the whole.
pub proof fn lemma_sum_subrange_le<T: Spendable>(s: Seq<T>, i: int, j: int)
    requires
        0 <= i <= j <= s.len(),
    ensures
        sum_values(s.subrange(i, j)) <= sum_values(s),
{
    lemma_sum_split(s, j);
    lemma_sum_nonneg(s.skip(j));
    assert(s.take(j).subrange(i, j) =~= s.subrange(i, j));
    lemma_sum_split(s.take(j), i);
    lemma_sum_nonneg(s.take(j).take(i));
    assert(s.take(j).skip(i) =~= s.subrange(i, j));
}

/// Filtering never increases the sum.
pub proof fn lemma_sum_filter_le<T: Spendable>(s: Seq<T>, pred: spec_fn(T) -> bool)
    ensures
        sum_values(s.filter(pred)) <= sum_values(s),
    decreases s.len(),
{
    reveal(Seq::filter);
    if s.len() > 0 {
        lemma_sum_filter_le(s.drop_last(), pred);
        if pred(s.last()) {
            lemma_sum_push(s.drop_last().filter(pred), s.last());
        }
    }
}

/// Ascending order by value.
pub open spec fn sorted_by_value<T: Spendable>(s: Seq<T>) -> bool {
    forall|i: int, j: int|
        0 <= i < j < s.len() ==> s[i].spec_value() <= s[j].spec_value()
}

/// Stable insertion of one record into an ascending sequence: the new record
/// lands after every record of equal or smaller value.
pub open spec fn insert_by_value<T: Spendable>(s: Seq<T>, x: T) -> Seq<T>
    decreases s.len(),
{
    if s.len() == 0 {
        seq![x]
    } else if s.last().spec_value() <= x.spec_value() {
        s.push(x)
    } else {
        insert_by_value(s.drop_last(), x).push(s.last())
    }
}

/// The stable ascending sort of a sequence of records.
pub open spec fn sort_by_value_spec<T: Spendable>(s: Seq<T>) -> Seq<T>
    decreases s.len(),
{
    if s.len() == 0 {
        Seq::empty()
    } else {
        insert_by_value(sort_by_value_spec(s.drop_last()), s.last())
    }
}

pub proof fn lemma_insert_by_value_props<T: Spendable>(s: Seq<T>, x: T)
    ensures
        insert_by_value(s, x).len() == s.len() + 1,
        insert_by_value(s, x).to_multiset() == s.to_multiset().insert(x),
        sum_values(insert_by_value(s, x)) == sum_values(s) + x.spec_value(),
        sorted_by_value(s) ==> sorted_by_value(insert_by_value(s, x)),
        forall|i: int|
            0 <= i < insert_by_value(s, x).len() ==> (insert_by_value(s, x)[i] == x || s.contains(
                insert_by_value(s, x)[i],
            )),
    decreases s.len(),
{
    broadcast use group_to_multiset_ensures;

    let r = insert_by_value(s, x);
    if s.len() == 0 {
        assert(r =~= s.push(x));
        lemma_sum_push(s, x);
    } else if s.last().spec_value() <= x.spec_value() {
        lemma_sum_push(s, x);
    } else {
        let d = s.drop_last();
        let y = s.last();
        lemma_insert_by_value_props(d, x);
        let r0 = insert_by_value(d, x);
        assert(s =~= d.push(y));
        assert(s.to_multiset() == d.to_multiset().insert(y));
        assert(r.to_multiset() == d.to_multiset().insert(x).insert(y));
        assert(d.to_multiset().insert(x).insert(y) =~= d.to_multiset().insert(y).insert(x));
        lemma_sum_push(r0, y);
        if sorted_by_value(s) {
            assert(sorted_by_value(d));
            assert forall|i: int| 0 <= i < r0.len() implies r0[i].spec_value()
                <= y.spec_value() by {
                if r0[i] != x {
                    let j = choose|j: int| 0 <= j < d.len() && d[j] == r0[i];
                    assert(s[j] == d[j]);
                }
            }
            assert(sorted_by_value(r));
        }
        assert forall|i: int| 0 <= i < r.len() implies (r[i] == x || s.contains(r[i])) by {
            if i < r0.len() && r0[i] != x {
                let j = choose|j: int| 0 <= j < d.len() && d[j] == r0[i];
                assert(s[j] == r[i]);
            }
            if i == r0.len() {
                assert(r[i] == y && s.last() == y);
            }
        }
    }
}

pub proof fn lemma_sort_by_value_props<T: Spendable>(s: Seq<T>)
    ensures
        sort_by_value_spec(s).len() == s.len(),
        sort_by_value_spec(s).to_multiset() == s.to_multiset(),
        sum_values(sort_by_value_spec(s)) == sum_values(s),
        sorted_by_value(sort_by_value_spec(s)),
    decreases s.len(),
{
    broadcast use group_to_multiset_ensures;

    if s.len() > 0 {
        let d = s.drop_last();
        lemma_sort_by_value_props(d);
        lemma_insert_by_value_props(sort_by_value_spec(d), s.last());
        assert(s =~= d.push(s.last()));
        assert(s.to_multiset() == d.to_multiset().insert(s.last()));
    } else {
        assert(s =~= Seq::<T>::empty());
    }
}

/// Number of records the covering search takes: records are included as long
/// as the running sum before each is still below the target.
pub open spec fn covering_len<T: Spendable>(s: Seq<T>, target: int) -> nat
    decreases s.len(),
{
    if target <= 0 || s.len() == 0 {
        0
    } else {
        1 + covering_len(s.drop_first(), target - s[0].spec_value())
    }
}

proof fn lemma_sum_take_drop_first<T: Spendable>(s: Seq<T>, i: int)
    requires
        1 <= i <= s.len(),
    ensures
        sum_values(s.take(i)) == s[0].spec_value() + sum_values(s.drop_first().take(i - 1)),
    decreases i,
{
    if i == 1 {
        assert(s.take(1).drop_last() =~= Seq::<T>::empty());
        assert(s.take(1).last() == s[0]);
        assert(s.drop_first().take(0) =~= Seq::<T>::empty());
    } else {
        lemma_sum_take_drop_first(s, i - 1);
        lemma_sum_take_succ(s, i - 1);
        lemma_sum_take_succ(s.drop_first(), i - 2);
        assert(s.drop_first()[i - 2] == s[i - 1]);
    }
}

/// The covering search takes the shortest prefix whose sum reaches the
/// target, and the whole sequence when even its total falls short.
pub proof fn lemma_covering_len_props<T: Spendable>(s: Seq<T>, target: int)
    ensures
        covering_len(s, target) <= s.len(),
        sum_values(s) >= target ==> sum_values(s.take(covering_len(s, target) as int)) >= target,
        forall|j: int| 0 <= j < covering_len(s, target) ==> sum_values(s.take(j)) < target,
    decreases s.len(),
{
    let k = covering_len(s, target) as int;
    if target <= 0 {
        lemma_sum_nonneg(s.take(0));
        assert(s.take(0) =~= Seq::<T>::empty());
    } else if s.len() == 0 {
    } else {
        let d = s.drop_first();
        let t2 = target - s[0].spec_value();
        lemma_covering_len_props(d, t2);
        let k2 = covering_len(d, t2) as int;
        assert(k == 1 + k2);
        assert(sum_values(s) == s[0].spec_value() + sum_values(d)) by {
            lemma_sum_take_drop_first(s, s.len() as int);
            assert(s.take(s.len() as int) =~= s);
            assert(d.take(d.len() as int) =~= d);
        }
        if sum_values(s) >= target {
            lemma_sum_take_drop_first(s, k);
        }
        assert forall|j: int| 0 <= j < k implies sum_values(s.take(j)) < target by {
            if j == 0 {
                assert(s.take(0) =~= Seq::<T>::empty());
            } else {
                lemma_sum_take_drop_first(s, j);
                assert(sum_values(d.take(j - 1)) < t2);
            }
        }
    }
}

/// What the covering search returns: nothing when the total falls short,
/// everything when every record was asked for, and otherwise the shortest
/// ascending prefix whose sum reaches the target.
pub open spec fn select_from_spec<T: Spendable>(target: int, select_all: bool, s: Seq<T>) -> Option<
    Seq<T>,
> {
    if sum_values(s) < target {
        None
    } else if select_all {
        Some(s)
    } else {
        Some(s.take(covering_len(s, target) as int))
    }
}

/// Sum the values of the records in `v`.
pub fn sum_values_exec<T: Spendable>(v: &Vec<T>) -> (total: u64)
    requires
        sum_values(v@) <= u64::MAX,
    ensures
        total == sum_values(v@),
{
    let mut total: u64 = 0;
    let mut i: usize = 0;
    while i < v.len()
        invariant
            0 <= i <= v@.len(),
            total == sum_values(v@.take(i as int)),
            sum_values(v@) <= u64::MAX,
        decreases v@.len() - i,
    {
        proof {
            lemma_sum_take_succ(v@, i as int);
            lemma_sum_take_le(v@, i + 1);
            lemma_sum_nonneg(v@.take(i + 1));
        }
        total = total + v[i].value();
        i = i + 1;
    }
    proof {
        assert(v@.take(v@.len() as int) =~= v@);
    }
    total
}

/// Copy the records into a fresh vector.
fn copy_records<T: Spendable>(v: &Vec<T>) -> (r: Vec<T>)
    ensures
        r@ == v@,
{
    let mut r: Vec<T> = Vec::new();
    let mut i: usize = 0;
    while i < v.len()
        invariant
            0 <= i <= v@.len(),
            r@ == v@.take(i as int),
        decreases v@.len() - i,
    {
        r.push(v[i]);
        proof {
            assert(r@ =~= v@.take(i + 1));
        }
        i = i + 1;
    }
    proof {
        assert(v@.take(v@.len() as int) =~= v@);
    }
    r
}

/// The covering search over one candidate sequence, generic in the asset.
#[verifier::loop_isolation(false)]
fn select_from_generic<T: Spendable>(amount: u64, select_all: bool, outputs: &Vec<T>) -> (r: Option<
    Vec<T>,
>)
    requires
        sum_values(outputs@) <= u64::MAX,
    ensures
        (match r {
            Some(v) => select_from_spec(amount as int, select_all, outputs@) == Some(v@),
            None => select_from_spec(amount as int, select_all, outputs@) is None,
        }),
{
    let total = sum_values_exec(outputs);
    if total < amount {
        return None;
    }
    if select_all {
        return Some(copy_records(outputs));
    }
    let mut selected: Vec<T> = Vec::new();
    let mut selected_amount: u64 = 0;
    let mut i: usize = 0;
    while i < outputs.len() && selected_amount < amount
        invariant
            0 <= i <= outputs@.len(),
            selected@ == outputs@.take(i as int),
            selected_amount == sum_values(outputs@.take(i as int)),
            forall|j: int| 0 <= j < i ==> sum_values(outputs@.take(j)) < amount,
        decreases outputs@.len() - i,
    {
        proof {
            lemma_sum_take_succ(outputs@, i as int);
            lemma_sum_take_le(outputs@, i + 1);
            lemma_sum_nonneg(outputs@.take(i + 1));
        }
        selected.push(outputs[i]);
        selected_amount = selected_amount + outputs[i].value();
        i = i + 1;
    }
    proof {
        lemma_covering_len_props(outputs@, amount as int);
        let k = covering_len(outputs@, amount as int) as int;
        assert(outputs@.take(outputs@.len() as int) =~= outputs@);
        if selected_amount >= amount {
            if i < k {
                assert(sum_values(outputs@.take(i as int)) < amount);
            }
            if k < i {
                assert(sum_values(outputs@.take(k)) < amount);
                assert(sum_values(outputs@.take(k)) >= amount);
            }
        } else {
            assert(i == outputs@.len());
            assert(sum_values(outputs@) >= amount);
        }
        assert(i == k);
    }
    Some(selected)
}

/// First window of `cap` consecutive records, scanning from `i`, that the
/// covering search accepts.
pub open spec fn first_covering_window<T: Spendable>(
    target: int,
    select_all: bool,
    s: Seq<T>,
    cap: int,
    i: int,
) -> Option<Seq<T>>
    decreases s.len() - i when 0 <= i && cap >= 1
{
    if cap < 1 || i + cap > s.len() {
        None
    } else {
        match select_from_spec(target, select_all, s.subrange(i, i + cap)) {
            Some(w) => Some(w),
            None => first_covering_window(target, select_all, s, cap, i + 1),
        }
    }
}

/// The records a best-effort failure reports: the eligible set descending,
/// truncated to the cap.  This is a diagnostic bound, not a spend set.
pub open spec fn descending_truncated<T: Spendable>(s: Seq<T>, cap: int) -> Seq<T> {
    if cap < s.len() {
        s.reverse().take(cap)
    } else {
        s.reverse()
    }
}

/// The chosen records, given the ascending-sorted eligible set: a window pass
/// with unrestricted fallback when the set exceeds the cap, a plain covering
/// search otherwise, and the descending truncation when everything fails.
pub open spec fn select_result<T: Spendable>(
    target: int,
    select_all: bool,
    sorted: Seq<T>,
    cap: int,
) -> Seq<T> {
    if sorted.len() > cap {
        match first_covering_window(target, select_all, sorted, cap, 0) {
            Some(w) => w,
            None => match select_from_spec(target, false, sorted) {
                Some(c) => c,
                None => descending_truncated(sorted, cap),
            },
        }
    } else {
        match select_from_spec(target, select_all, sorted) {
            Some(c) => c,
            None => descending_truncated(sorted, cap),
        }
    }
}

/// Stable ascending sort by value.
pub fn sort_records<T: Spendable>(v: Vec<T>) -> (r: Vec<T>)
    ensures
        r@ == sort_by_value_spec(v@),
    decreases v@.len(),
{
    let mut v = v;
    match v.pop() {
        None => {
            proof {
                assert(v@ =~= Seq::<T>::empty());
            }
            v
        },
        Some(x) => {
            let sorted = sort_records(v);
            insert_sorted(sorted, x)
        },
    }
}

fn insert_sorted<T: Spendable>(v: Vec<T>, x: T) -> (r: Vec<T>)
    ensures
        r@ == insert_by_value(v@, x),
    decreases v@.len(),
{
    let mut v = v;
    if v.len() == 0 {
        proof {
            assert(v@ =~= Seq::<T>::empty());
        }
        v.push(x);
        proof {
            assert(v@ =~= seq![x]);
        }
        v
    } else {
        let last_val = v[v.len() - 1].value();
        if last_val <= x.value() {
            v.push(x);
            v
        } else {
            let ghost v0 = v@;
            let y = v[v.len() - 1];
            let short_len = v.len() - 1;
            v.truncate(short_len);
            proof {
                assert(v@ =~= v0.drop_last());
            }
            let mut r = insert_sorted(v, x);
            r.push(y);
            r
        }
    }
}

/// Reverse the order of the records.
fn reverse_records<T: Spendable>(v: &Vec<T>) -> (r: Vec<T>)
    ensures
        r@ == v@.reverse(),
{
    let mut r: Vec<T> = Vec::new();
    let mut i: usize = 0;
    while i < v.len()
        invariant
            0 <= i <= v@.len(),
            r@.len() == i,
            forall|j: int| 0 <= j < i ==> r@[j] == v@[v@.len() - 1 - j],
        decreases v@.len() - i,
    {
        r.push(v[v.len() - 1 - i]);
        i = i + 1;
    }
    proof {
        assert(r@ =~= v@.reverse());
    }
    r
}

/// The best-effort diagnostic result: descending order, truncated to the cap.
fn best_effort<T: Spendable>(sorted: &Vec<T>, max_outputs: usize) -> (r: Vec<T>)
    ensures
        r@ == descending_truncated(sorted@, max_outputs as int),
{
    let mut rev = reverse_records(sorted);
    if max_outputs < rev.len() {
        rev.truncate(max_outputs);
    }
    rev
}

/// The post-filter selection shared by both assets: sort ascending, try the
/// window pass or the plain covering search, fall back to the descending
/// truncation.
#[verifier::loop_isolation(false)]
fn select_generic<T: Spendable>(
    eligible: Vec<T>,
    amount: u64,
    max_outputs: usize,
    select_all: bool,
) -> (r: Vec<T>)
    requires
        sum_values(eligible@) <= u64::MAX,
        max_outputs >= 1,
    ensures
        r@ == select_result(
            amount as int,
            select_all,
            sort_by_value_spec(eligible@),
            max_outputs as int,
        ),
{
    proof {
        lemma_sort_by_value_props(eligible@);
    }
    let sorted = sort_records(eligible);
    let ghost sq = sorted@;
    if sorted.len() > max_outputs {
        let mut i: usize = 0;
        while i <= sorted.len() - max_outputs
            invariant
                0 <= i,
                i + max_outputs <= sq.len() + 1,
                first_covering_window(amount as int, select_all, sq, max_outputs as int, 0)
                    == first_covering_window(
                    amount as int,
                    select_all,
                    sq,
                    max_outputs as int,
                    i as int,
                ),
            decreases sq.len() - i,
        {
            let mut window: Vec<T> = Vec::new();
            let mut j: usize = 0;
            while j < max_outputs
                invariant
                    0 <= j <= max_outputs,
                    window@ == sq.subrange(i as int, i + j),
                decreases max_outputs - j,
            {
                window.push(sorted[i + j]);
                proof {
                    assert(window@ =~= sq.subrange(i as int, i + j + 1));
                }
                j = j + 1;
            }
            proof {
                lemma_sum_subrange_le(sq, i as int, i + max_outputs);
            }
            match select_from_generic(amount, select_all, &window) {
                Some(outputs) => {
                    return outputs;
                },
                None => {},
            }
            i = i + 1;
        }
        match select_from_generic(amount, false, &sorted) {
            Some(outputs) => outputs,
            None => best_effort(&sorted, max_outputs),
        }
    } else {
        match select_from_generic(amount, select_all, &sorted) {
            Some(outputs) => outputs,
            None => best_effort(&sorted, max_outputs),
        }
    }
}

/// The primary-asset eligibility filter: coins owned by the requested root
/// that pass the maturity and confirmation gate.
pub open spec fn eligible_primary(
    coins: Seq<OutputData>,
    parent_key_id: Identifier,
    current_height: u64,
    minimum_confirmations: u64,
) -> Seq<OutputData> {
    coins.filter(
        |c: OutputData|
            c.root_key_id == parent_key_id && c.spec_eligible(current_height, minimum_confirmations),
    )
}

/// The secondary-asset eligibility filter: additionally keyed by asset type.
pub open spec fn eligible_token(
    coins: Seq<TokenOutputData>,
    parent_key_id: Identifier,
    token_type: u64,
    current_height: u64,
    minimum_confirmations: u64,
) -> Seq<TokenOutputData> {
    coins.filter(
        |c: TokenOutputData|
            c.root_key_id == parent_key_id && c.token_type == token_type && c.spec_eligible(
                current_height,
                minimum_confirmations,
            ),
    )
}

/// Covering search over one candidate list of primary-asset coins.
pub fn select_from(amount: u64, select_all: bool, outputs: Vec<OutputData>) -> (r: Option<
    Vec<OutputData>,
>)
    requires
        sum_values(outputs@) <= u64::MAX,
    ensures
        (match r {
            Some(v) => select_from_spec(amount as int, select_all, outputs@) == Some(v@),
            None => select_from_spec(amount as int, select_all, outputs@) is None,
        }),
{
    select_from_generic(amount, select_all, &outputs)
}

/// Covering search over one candidate list of secondary-asset coins.
pub fn select_token_from(amount: u64, select_all: bool, outputs: Vec<TokenOutputData>) -> (r: Option<
    Vec<TokenOutputData>,
>)
    requires
        sum_values(outputs@) <= u64::MAX,
    ensures
        (match r {
            Some(v) => select_from_spec(amount as int, select_all, outputs@) == Some(v@),
            None => select_from_spec(amount as int, select_all, outputs@) is None,
        }),
{
    select_from_generic(amount, select_all, &outputs)
}

/// Select spendable primary-asset coins covering `amount`, treating
/// `max_outputs` as a soft cap.  Returns the eligible count before any
/// windowing, and the chosen coins.
#[verifier::loop_isolation(false)]
pub fn select_coins(
    wallet: &Wallet,
    amount: u64,
    current_height: u64,
    minimum_confirmations: u64,
    max_outputs: usize,
    select_all: bool,
    parent_key_id: &Identifier,
) -> (r: (usize, Vec<OutputData>))
    requires
        sum_values(wallet.coins@) <= u64::MAX,
        max_outputs >= 1,
    ensures
        ({
            let eligible = eligible_primary(
                wallet.coins@,
                *parent_key_id,
                current_height,
                minimum_confirmations,
            );
            r.0 == eligible.len() && r.1@ == select_result(
                amount as int,
                select_all,
                sort_by_value_spec(eligible),
                max_outputs as int,
            )
        }),
{
    let ghost pred = |c: OutputData|
        c.root_key_id == *parent_key_id && c.spec_eligible(current_height, minimum_confirmations);
    let mut eligible: Vec<OutputData> = Vec::new();
    let mut i: usize = 0;
    while i < wallet.coins.len()
        invariant
            0 <= i <= wallet.coins@.len(),
            eligible@ == wallet.coins@.take(i as int).filter(pred),
        decreases wallet.coins@.len() - i,
    {
        let c = wallet.coins[i];
        if c.root_key_id == *parent_key_id && c.eligible_to_spend(
            current_height,
            minimum_confirmations,
        ) {
            eligible.push(c);
        }
        proof {
            reveal(Seq::filter);
            assert(wallet.coins@.take(i + 1).drop_last() =~= wallet.coins@.take(i as int));
            assert(wallet.coins@.take(i + 1).last() == c);
            assert(eligible@ == wallet.coins@.take(i + 1).filter(pred));
        }
        i = i + 1;
    }
    proof {
        assert(wallet.coins@.take(wallet.coins@.len() as int) =~= wallet.coins@);
        lemma_sum_filter_le(wallet.coins@, pred);
        lemma_sum_nonneg(eligible@);
    }
    let max_available = eligible.len();
    let chosen = select_generic(eligible, amount, max_outputs, select_all);
    (max_available, chosen)
}

/// Select spendable secondary-asset coins of one asset type covering
/// `amount`, treating `max_outputs` as a soft cap.
#[verifier::loop_isolation(false)]
pub fn select_token_coins(
    wallet: &Wallet,
    amount: u64,
    token_type: u64,
    current_height: u64,
    minimum_confirmations: u64,
    max_outputs: usize,
    select_all: bool,
    parent_key_id: &Identifier,
) -> (r: (usize, Vec<TokenOutputData>))
    requires
        sum_values(wallet.token_coins@) <= u64::MAX,
        max_outputs >= 1,
    ensures
        ({
            let eligible = eligible_token(
                wallet.token_coins@,
                *parent_key_id,
                token_type,
                current_height,
                minimum_confirmations,
            );
            r.0 == eligible.len() && r.1@ == select_result(
                amount as int,
                select_all,
                sort_by_value_spec(eligible),
                max_outputs as int,
            )
        }),
{
    let ghost pred = |c: TokenOutputData|
        c.root_key_id == *parent_key_id && c.token_type == token_type && c.spec_eligible(
            current_height,
            minimum_confirmations,
        );
    let mut eligible: Vec<TokenOutputData> = Vec::new();
    let mut i: usize = 0;
    while i < wallet.token_coins.len()
        invariant
            0 <= i <= wallet.token_coins@.len(),
            eligible@ == wallet.token_coins@.take(i as int).filter(pred),
        decreases wallet.token_coins@.len() - i,
    {
        let c = wallet.token_coins[i];
        if c.root_key_id == *parent_key_id && c.token_type == token_type && c.eligible_to_spend(
            current_height,
            minimum_confirmations,
        ) {
            eligible.push(c);
        }
        proof {
            reveal(Seq::filter);
            assert(wallet.token_coins@.take(i + 1).drop_last() =~= wallet.token_coins@.take(
                i as int,
            ));
            assert(wallet.token_coins@.take(i + 1).last() == c);
            assert(eligible@ == wallet.token_coins@.take(i + 1).filter(pred));
        }
        i = i + 1;
    }
    proof {
        assert(wallet.token_coins@.take(wallet.token_coins@.len() as int) =~= wallet.token_coins@);
        lemma_sum_filter_le(wallet.token_coins@, pred);
        lemma_sum_nonneg(eligible@);
    }
    let max_available = eligible.len();
    let chosen = select_generic(eligible, amount, max_outputs, select_all);
    (max_available, chosen)
}

/// Reversal keeps the sum.
pub proof fn lemma_sum_reverse<T: Spendable>(s: Seq<T>)
    ensures
        sum_values(s.reverse()) == sum_values(s),
    decreases s.len(),
{
    if s.len() > 0 {
        lemma_sum_reverse(s.skip(1));
        assert(s.reverse().drop_last() =~= s.skip(1).reverse());
        assert(s.reverse().last() == s[0]);
        lemma_sum_split(s, 1);
        lemma_sum_take_succ(s, 0);
        assert(s.take(0) =~= Seq::<T>::empty());
    }
}

/// A window the scan accepts has at most `cap` records and no more value
/// than the whole sequence.
pub proof fn lemma_first_covering_window_props<T: Spendable>(
    target: int,
    select_all: bool,
    s: Seq<T>,
    cap: int,
    i: int,
)
    requires
        0 <= i,
        1 <= cap,
    ensures
        first_covering_window(target, select_all, s, cap, i) matches Some(w) ==> (w.len() <= cap
            && sum_values(w) <= sum_values(s)),
    decreases s.len() - i,
{
    if i + cap <= s.len() {
        let sub = s.subrange(i, i + cap);
        lemma_sum_subrange_le(s, i, i + cap);
        match select_from_spec(target, select_all, sub) {
            Some(w) => {
                if !select_all {
                    lemma_covering_len_props(sub, target);
                    lemma_sum_take_le(sub, covering_len(sub, target) as int);
                }
            },
            None => {
                lemma_first_covering_window_props(target, select_all, s, cap, i + 1);
            },
        }
    }
}

/// Whatever branch selection takes, the chosen records are never more
/// numerous, nor worth more, than the sorted eligible set.
pub proof fn lemma_select_result_props<T: Spendable>(
    target: int,
    select_all: bool,
    sorted: Seq<T>,
    cap: int,
)
    requires
        1 <= cap,
    ensures
        select_result(target, select_all, sorted, cap).len() <= sorted.len(),
        sum_values(select_result(target, select_all, sorted, cap)) <= sum_values(sorted),
{
    lemma_covering_len_props(sorted, target);
    lemma_sum_take_le(sorted, covering_len(sorted, target) as int);
    lemma_sum_reverse(sorted);
    if sorted.reverse().len() > cap {
        lemma_sum_take_le(sorted.reverse(), cap);
    }
    if sorted.len() > cap {
        lemma_first_covering_window_props(target, select_all, sorted, cap, 0);
    }
}

proof fn lemma_first_covering_window_contains<T: Spendable>(
    target: int,
    select_all: bool,
    s: Seq<T>,
    cap: int,
    i: int,
)
    requires
        0 <= i,
        1 <= cap,
    ensures
        first_covering_window(target, select_all, s, cap, i) matches Some(w) ==> forall|j: int|
            0 <= j < w.len() ==> s.contains(#[trigger] w[j]),
    decreases s.len() - i,
{
    if i + cap <= s.len() {
        let sub = s.subrange(i, i + cap);
        match select_from_spec(target, select_all, sub) {
            Some(w) => {
                lemma_covering_len_props(sub, target);
                assert forall|j: int| 0 <= j < w.len() implies s.contains(w[j]) by {
                    assert(w[j] == sub[j]);
                    assert(sub[j] == s[i + j]);
                }
            },
            None => {
                lemma_first_covering_window_contains(target, select_all, s, cap, i + 1);
            },
        }
    }
}

/// Every chosen record comes from the sorted eligible set.
pub proof fn lemma_select_result_contains<T: Spendable>(
    target: int,
    select_all: bool,
    sorted: Seq<T>,
    cap: int,
)
    requires
        1 <= cap,
    ensures
        forall|j: int|
            0 <= j < select_result(target, select_all, sorted, cap).len() ==> sorted.contains(
                #[trigger] select_result(target, select_all, sorted, cap)[j],
            ),
{
    let r = select_result(target, select_all, sorted, cap);
    lemma_covering_len_props(sorted, target);
    if sorted.len() > cap {
        lemma_first_covering_window_contains(target, select_all, sorted, cap, 0);
    }
    assert forall|j: int| 0 <= j < r.len() implies sorted.contains(r[j]) by {
        if sorted.len() > cap && first_covering_window(target, select_all, sorted, cap, 0)
            is Some {
        } else {
            let k = covering_len(sorted, target) as int;
            if sum_values(sorted) >= target && !(sorted.len() <= cap && select_all) {
                assert(r[j] == sorted[j]);
            } else if sum_values(sorted) >= target {
                assert(r == sorted);
            } else {
                assert(r[j] == sorted.reverse()[j]);
                assert(sorted.reverse()[j] == sorted[sorted.len() - 1 - j]);
            }
        }
    }
}

/// Asset separation on the selection side: every secondary-asset coin the
/// selector can choose carries the requested asset type, belongs to the
/// requested root, and passed the eligibility gate -- selection never
/// reaches across asset types or accounts.
pub proof fn lemma_token_selection_separation(
    coins: Seq<TokenOutputData>,
    parent_key_id: Identifier,
    token_type: u64,
    current_height: u64,
    minimum_confirmations: u64,
    target: int,
    select_all: bool,
    cap: int,
)
    requires
        1 <= cap,
    ensures
        ({
            let chosen = select_result(
                target,
                select_all,
                sort_by_value_spec(
                    eligible_token(
                        coins,
                        parent_key_id,
                        token_type,
                        current_height,
                        minimum_confirmations,
                    ),
                ),
                cap,
            );
            forall|j: int|
                0 <= j < chosen.len() ==> {
                    &&& (#[trigger] chosen[j]).token_type == token_type
                    &&& chosen[j].root_key_id == parent_key_id
                    &&& chosen[j].spec_eligible(current_height, minimum_confirmations)
                }
        }),
{
    broadcast use group_to_multiset_ensures;
    broadcast use vstd::seq_lib::group_filter_ensures;

    let pred = |c: TokenOutputData|
        c.root_key_id == parent_key_id && c.token_type == token_type && c.spec_eligible(
            current_height,
            minimum_confirmations,
        );
    let elig = eligible_token(coins, parent_key_id, token_type, current_height, minimum_confirmations);
    let sorted = sort_by_value_spec(elig);
    let chosen = select_result(target, select_all, sorted, cap);
    lemma_sort_by_value_props(elig);
    lemma_select_result_contains(target, select_all, sorted, cap);
    assert forall|j: int| 0 <= j < chosen.len() implies {
        &&& chosen[j].token_type == token_type
        &&& chosen[j].root_key_id == parent_key_id
        &&& chosen[j].spec_eligible(current_height, minimum_confirmations)
    } by {
        assert(sorted.contains(chosen[j]));
        assert(sorted.to_multiset().count(chosen[j]) > 0);
        assert(elig.contains(chosen[j]));
        let i = choose|i: int| 0 <= i < elig.len() && elig[i] == chosen[j];
        assert(pred(elig[i]));
    }
}

/// The primary-asset counterpart: every coin the selector can choose
/// belongs to the requested root and passed the eligibility gate.
pub proof fn lemma_selection_owned_by_root(
    coins: Seq<OutputData>,
    parent_key_id: Identifier,
    current_height: u64,
    minimum_confirmations: u64,
    target: int,
    select_all: bool,
    cap: int,
)
    requires
        1 <= cap,
    ensures
        ({
            let chosen = select_result(
                target,
                select_all,
                sort_by_value_spec(
                    eligible_primary(coins, parent_key_id, current_height, minimum_confirmations),
                ),
                cap,
            );
            forall|j: int|
                0 <= j < chosen.len() ==> {
                    &&& (#[trigger] chosen[j]).root_key_id == parent_key_id
                    &&& chosen[j].spec_eligible(current_height, minimum_confirmations)
                }
        }),
{
    broadcast use group_to_multiset_ensures;
    broadcast use vstd::seq_lib::group_filter_ensures;

    let pred = |c: OutputData|
        c.root_key_id == parent_key_id && c.spec_eligible(current_height, minimum_confirmations);
    let elig = eligible_primary(coins, parent_key_id, current_height, minimum_confirmations);
    let sorted = sort_by_value_spec(elig);
    let chosen = select_result(target, select_all, sorted, cap);
    lemma_sort_by_value_props(elig);
    lemma_select_result_contains(target, select_all, sorted, cap);
    assert forall|j: int| 0 <= j < chosen.len() implies {
        &&& chosen[j].root_key_id == parent_key_id
        &&& chosen[j].spec_eligible(current_height, minimum_confirmations)
    } by {
        assert(sorted.contains(chosen[j]));
        assert(sorted.to_multiset().count(chosen[j]) > 0);
        assert(elig.contains(chosen[j]));
        let i = choose|i: int| 0 <= i < elig.len() && elig[i] == chosen[j];
        assert(pred(elig[i]));
    }
}

/// Covering minimality: over any ascending sequence whose total reaches the
/// target, the covering search returns the shortest prefix whose sum reaches
/// the target -- never a prefix that already reached it one element earlier.
pub proof fn lemma_covering_minimality<T: Spendable>(s: Seq<T>, target: int)
    requires
        sorted_by_value(s),
        sum_values(s) >= target,
    ensures
        sum_values(s.take(covering_len(s, target) as int)) >= target,
        forall|j: int| 0 <= j < covering_len(s, target) ==> sum_values(s.take(j)) < target,
{
    lemma_covering_len_props(s, target);
}

/// Window fallback: when the eligible set exceeds the cap and no window of
/// cap-many consecutive coins covers the target, the unrestricted covering
/// search over the whole set is tried before failure is declared, and its
/// result is returned whenever the whole set covers the target.
pub proof fn lemma_window_fallback<T: Spendable>(
    target: int,
    select_all: bool,
    sorted: Seq<T>,
    cap: int,
)
    requires
        sorted.len() > cap,
        first_covering_window(target, select_all, sorted, cap, 0) is None,
        sum_values(sorted) >= target,
    ensures
        select_result(target, select_all, sorted, cap) == sorted.take(
            covering_len(sorted, target) as int,
        ),
        sum_values(select_result(target, select_all, sorted, cap)) >= target,
{
    lemma_covering_len_props(sorted, target);
}

} // verus!
