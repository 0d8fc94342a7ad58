//! Moving between phrases while dubbing.

use vstd::prelude::*;

verus! {

/// Where the circular search for an untaken phrase starts: right after the
/// selected phrase, or at the first phrase when none is selected.
pub open spec fn search_start(selected: Option<usize>) -> int {
    match selected {
        Some(index) => index + 1,
        None => 0,
    }
}

/// The phrase `offset` steps after `from`, going round past the end.
pub open spec fn circular(count: nat, from: int, offset: int) -> int {
    (from + offset) % (count as int)
}

/// The first phrase without a take at `offset` steps or more after `from`.
pub open spec fn pending_from(has_take: Seq<bool>, from: int, offset: nat) -> Option<int>
    decreases has_take.len() - offset,
{
    if offset >= has_take.len() {
        None
    } else if !has_take[circular(has_take.len(), from, offset as int)] {
        Some(circular(has_take.len(), from, offset as int))
    } else {
        pending_from(has_take, from, offset + 1)
    }
}

/// The next phrase without a take, searched round from after the selected one.
pub open spec fn next_pending(has_take: Seq<bool>, selected: Option<usize>) -> Option<int> {
    if has_take.len() == 0 {
        None
    } else {
        pending_from(has_take, search_start(selected), 0)
    }
}

/// The next phrase without a take, for dubbing phrase after phrase: the search
/// starts after the selected phrase and wraps round to the ones skipped at the start.
pub fn next_empty_index(has_take: &Vec<bool>, selected: Option<usize>) -> (r: Option<usize>)
    requires
        selected matches Some(index) ==> index + 1 + has_take.len() <= usize::MAX,
    ensures
        r == match next_pending(has_take@, selected) {
            Some(i) => Some(i as usize),
            None => None::<usize>,
        },
        r matches Some(i) ==> i < has_take.len() && !has_take@[i as int],
        r is None <==> forall|i: int| 0 <= i < has_take.len() ==> #[trigger] has_take@[i],
        selected is None ==> (r matches Some(i) ==> forall|j: int| 0 <= j < i ==> #[trigger] has_take@[j]),
        selected matches Some(s) ==> (r matches Some(i) ==> exists|o: int|
            0 <= o < has_take.len() && i == #[trigger] circular(has_take.len() as nat, s + 1, o) && forall|p: int|
                0 <= p < o ==> #[trigger] has_take@[circular(has_take.len() as nat, s + 1, p)]),
{
    proof {
        if has_take.len() > 0 {
            next_pending_skips_only_taken(has_take@, selected);
        }
    }
    let count = has_take.len();
    if count == 0 {
        return None;
    }
    let from = match selected {
        Some(index) => index + 1,
        None => 0,
    };
    let mut offset: usize = 0;
    while offset < count
        invariant
            count == has_take@.len() > 0,
            from == search_start(selected),
            from + count <= usize::MAX,
            offset <= count,
            pending_from(has_take@, from as int, 0) == pending_from(has_take@, from as int, offset as nat),
        decreases count - offset,
    {
        let index = (from + offset) % count;
        assert(index == circular(count as nat, from as int, offset as int));
        if !has_take[index] {
            proof {
                next_pending_skips_only_taken(has_take@, selected);
                if let Some(s) = selected {
                    let n = has_take@.len();
                    let o = choose|o: int|
                        0 <= o < n && index == #[trigger] circular(n, s + 1, o) && forall|p: int|
                            0 <= p < o ==> #[trigger] has_take@[circular(n, s + 1, p)];
                    assert(0 <= o < n && index == circular(has_take.len() as nat, s + 1, o));
                }
            }
            return Some(index);
        }
        offset = offset + 1;
    }
    None
}

/// Every phrase passed over has a take: when the search finds phrase `i`, it
/// has no take, and every phrase between the search start and `i` (going round)
/// has one; when it finds none, every phrase has a take.
pub proof fn next_pending_skips_only_taken(has_take: Seq<bool>, selected: Option<usize>)
    requires
        has_take.len() > 0,
    ensures
        next_pending(has_take, selected) matches Some(i) ==> 0 <= i < has_take.len() && !has_take[i]
            && exists|o: int|
            0 <= o < has_take.len() && i == circular(has_take.len(), search_start(selected), o)
                && forall|p: int|
                0 <= p < o ==> #[trigger] has_take[circular(
                    has_take.len(),
                    search_start(selected),
                    p,
                )],
        next_pending(has_take, selected) is None <==> forall|i: int|
            0 <= i < has_take.len() ==> #[trigger] has_take[i],
        selected is None ==> (next_pending(has_take, selected) matches Some(i) ==> forall|j: int|
            0 <= j < i ==> #[trigger] has_take[j]),
        selected matches Some(s) ==> (next_pending(has_take, selected) matches Some(i) ==> exists|o: int|
            0 <= o < has_take.len() && i == #[trigger] circular(has_take.len(), s + 1, o) && forall|p: int|
                0 <= p < o ==> #[trigger] has_take[circular(has_take.len(), s + 1, p)]),
{
    lemma_pending_from(has_take, search_start(selected), 0);
    if selected is None {
        if let Some(i) = next_pending(has_take, selected) {
            let n = has_take.len() as int;
            let o = choose|o: int|
                0 <= o < n && i == circular(has_take.len(), search_start(selected), o) && forall|p: int|
                    0 <= p < o ==> #[trigger] has_take[circular(has_take.len(), search_start(selected), p)];
            vstd::arithmetic::div_mod::lemma_small_mod(o as nat, n as nat);
            assert forall|j: int| 0 <= j < i implies #[trigger] has_take[j] by {
                vstd::arithmetic::div_mod::lemma_small_mod(j as nat, n as nat);
                assert(circular(has_take.len(), search_start(selected), j) == j);
            }
        }
    }
    if next_pending(has_take, selected) is None {
        assert forall|i: int| 0 <= i < has_take.len() implies #[trigger] has_take[i] by {
            let from = search_start(selected);
            let n = has_take.len() as int;
            let o = ((i - from) % n + n) % n;
            assert(0 <= o < n);
            lemma_mod_shift(i, from, n);
            assert(circular(has_take.len(), from, o) == i);
        }
    }
}

proof fn lemma_mod_shift(i: int, from: int, n: int)
    requires
        0 <= i < n,
        0 <= from,
        n > 0,
    ensures
        (from + ((i - from) % n + n) % n) % n == i,
{
    vstd::arithmetic::div_mod::lemma_add_mod_noop(from, ((i - from) % n + n) % n, n);
    vstd::arithmetic::div_mod::lemma_mod_twice((i - from) % n + n, n);
    vstd::arithmetic::div_mod::lemma_add_mod_noop((i - from) % n, n, n);
    vstd::arithmetic::div_mod::lemma_mod_self_0(n);
    vstd::arithmetic::div_mod::lemma_mod_twice(i - from, n);
    vstd::arithmetic::div_mod::lemma_add_mod_noop(from, i - from, n);
    vstd::arithmetic::div_mod::lemma_small_mod(i as nat, n as nat);
}

proof fn lemma_pending_from(has_take: Seq<bool>, from: int, offset: nat)
    requires
        has_take.len() > 0,
        0 <= from,
    ensures
        pending_from(has_take, from, offset) matches Some(i) ==> 0 <= i < has_take.len()
            && !has_take[i] && exists|o: int|
            offset <= o < has_take.len() && i == circular(has_take.len(), from, o) && forall|p: int|
                offset <= p < o ==> #[trigger] has_take[circular(has_take.len(), from, p)],
        pending_from(has_take, from, offset) is None ==> forall|p: int|
            offset <= p < has_take.len() ==> #[trigger] has_take[circular(has_take.len(), from, p)],
    decreases has_take.len() - offset,
{
    if offset < has_take.len() {
        lemma_pending_from(has_take, from, offset + 1);
        let here = circular(has_take.len(), from, offset as int);
        assert(0 <= here < has_take.len()) by (nonlinear_arith)
            requires
                here == (from + offset) % (has_take.len() as int),
                has_take.len() > 0,
                from >= 0,
        ;
        if !has_take[here] {
            assert(forall|p: int| offset <= p < offset ==> #[trigger] has_take[circular(has_take.len(), from, p)]);
        }
    }
}

/// The phrase `delta` steps from the selected one (the first when none is
/// selected), held to the existing phrases.
pub open spec fn stepped(selected: Option<usize>, delta: int, count: nat) -> int {
    let current: int = match selected {
        Some(index) => index as int,
        None => 0,
    };
    let target = current + delta;
    if target < 0 {
        0
    } else if target > count - 1 {
        count - 1
    } else {
        target
    }
}

/// A step inside the phrase list moves by exactly `delta`; a step past either
/// end stops at the first or the last phrase.
pub proof fn step_moves_by_delta(selected: Option<usize>, delta: int, count: nat)
    requires
        count > 0,
    ensures
        selected matches Some(index) ==> (0 <= index + delta < count ==> stepped(selected, delta, count)
            == index + delta),
        selected is None && 0 <= delta < count ==> stepped(selected, delta, count) == delta,
        (match selected {
            Some(index) => index as int,
            None => 0,
        }) + delta < 0 ==> stepped(selected, delta, count) == 0,
        (match selected {
            Some(index) => index as int,
            None => 0,
        }) + delta >= count ==> stepped(selected, delta, count) == count - 1,
        0 <= stepped(selected, delta, count) < count,
{
}

/// Steps the selection `delta` phrases back or forth, stopping at the first and
/// the last phrase; `None` when there are no phrases.
pub fn step_index(selected: Option<usize>, delta: i32, count: usize) -> (r: Option<usize>)
    requires
        count <= i32::MAX,
        selected matches Some(index) ==> index <= i32::MAX,
        i32::MIN <= (match selected {
            Some(index) => index as int,
            None => 0,
        }) + delta <= i32::MAX,
    ensures
        count == 0 <==> r is None,
        r matches Some(i) ==> i == stepped(selected, delta as int, count as nat) && i < count,
        selected matches Some(index) ==> (0 <= index + delta < count ==> r == Some((index + delta) as usize)),
        selected is None && 0 <= delta < count ==> r == Some(delta as usize),
        count > 0 && (match selected {
            Some(index) => index as int,
            None => 0,
        }) + delta < 0 ==> r == Some(0usize),
        count > 0 && (match selected {
            Some(index) => index as int,
            None => 0,
        }) + delta >= count ==> r == Some((count - 1) as usize),
{
    if count == 0 {
        return None;
    }
    let current: i32 = match selected {
        Some(index) => index as i32,
        None => 0,
    };
    let target = current + delta;
    let last = count as i32 - 1;
    let next = if target < 0 {
        0
    } else if target > last {
        last
    } else {
        target
    };
    Some(next as usize)
}

} // verus!
