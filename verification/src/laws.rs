//! The allocation discipline of the server registry over whole runs.
//!
//! `get_id` steps the registry by the `step_*` functions of its contract.
//! Folding those steps over an arrival sequence gives the registry contents
//! and the ids handed out over a connection's lifetime; the laws at the end
//! of this module state the discipline: repeated occurrences of an address
//! receive identical ids, distinct addresses receive distinct ids while at
//! most 65536 distinct addresses have arrived, and ids are assigned in
//! strict first-seen order starting at 0.

use vstd::prelude::*;

use crate::addr::Addr;
use crate::server::{step_addr_map, step_count, step_id, FLOW_ID_SPACE};

verus! {

/// The address-to-id mapping after the addresses of `s` arrived, in order,
/// at a fresh registry.
pub open spec fn run_addr_map(s: Seq<Addr>) -> Map<Addr, u16>
    decreases s.len(),
{
    if s.len() == 0 {
        Map::empty()
    } else {
        step_addr_map(run_addr_map(s.drop_last()), run_count(s.drop_last()), s.last())
    }
}

/// The allocation count after the addresses of `s` arrived at a fresh
/// registry.
pub open spec fn run_count(s: Seq<Addr>) -> int
    decreases s.len(),
{
    if s.len() == 0 {
        0
    } else {
        step_count(run_addr_map(s.drop_last()), run_count(s.drop_last()), s.last())
    }
}

/// The ids handed out, in arrival order, as the addresses of `s` arrived at
/// a fresh registry.
pub open spec fn run_ids(s: Seq<Addr>) -> Seq<u16>
    decreases s.len(),
{
    if s.len() == 0 {
        Seq::empty()
    } else {
        run_ids(s.drop_last()).push(
            step_id(run_addr_map(s.drop_last()), run_count(s.drop_last()), s.last()),
        )
    }
}

/// How many distinct addresses occur in `s`.
pub open spec fn distinct_count(s: Seq<Addr>) -> int
    decreases s.len(),
{
    if s.len() == 0 {
        0
    } else {
        distinct_count(s.drop_last()) + (if s.drop_last().contains(s.last()) {
            0int
        } else {
            1int
        })
    }
}

/// One arrival unfolds the run at its position.
proof fn lemma_run_unfold(s: Seq<Addr>, i: int)
    requires
        0 <= i < s.len(),
    ensures
        run_addr_map(s.take(i + 1)) == step_addr_map(
            run_addr_map(s.take(i)),
            run_count(s.take(i)),
            s[i],
        ),
        run_count(s.take(i + 1)) == step_count(run_addr_map(s.take(i)), run_count(s.take(i)), s[i]),
{
    let p = s.take(i + 1);
    assert(p.drop_last() =~= s.take(i));
    assert(p.last() == s[i]);
}

/// A run hands out one id per arrival.
proof fn lemma_run_ids_len(s: Seq<Addr>)
    ensures
        run_ids(s).len() == s.len(),
    decreases s.len(),
{
    if s.len() > 0 {
        lemma_run_ids_len(s.drop_last());
    }
}

/// The id handed out at position `i` is the step id of the prefix before it.
proof fn lemma_run_ids_at(s: Seq<Addr>, i: int)
    requires
        0 <= i < s.len(),
    ensures
        run_ids(s).len() == s.len(),
        run_ids(s)[i] == step_id(run_addr_map(s.take(i)), run_count(s.take(i)), s[i]),
    decreases s.len(),
{
    lemma_run_ids_len(s);
    let t = s.drop_last();
    lemma_run_ids_len(t);
    if i == s.len() - 1 {
        assert(t =~= s.take(i));
    } else {
        lemma_run_ids_at(t, i);
        assert(t.take(i) =~= s.take(i));
        assert(t[i] == s[i]);
    }
}

/// The registry knows exactly the addresses that arrived, and its count is
/// the number of distinct addresses among them.
proof fn lemma_run_basic(s: Seq<Addr>)
    ensures
        run_count(s) == distinct_count(s),
        forall|a: Addr| #[trigger] run_addr_map(s).contains_key(a) <==> s.contains(a),
    decreases s.len(),
{
    if s.len() > 0 {
        let t = s.drop_last();
        let x = s.last();
        lemma_run_basic(t);
        assert forall|a: Addr| #[trigger] run_addr_map(s).contains_key(a) <==> s.contains(a) by {
            if run_addr_map(s).contains_key(a) {
                if a == x {
                    assert(s[s.len() - 1] == a);
                    assert(s.contains(a));
                } else {
                    assert(run_addr_map(t).contains_key(a));
                    assert(t.contains(a));
                    let i = choose|i: int| 0 <= i < t.len() && t[i] == a;
                    assert(s[i] == a);
                    assert(s.contains(a));
                }
            }
            if s.contains(a) {
                let i = choose|i: int| 0 <= i < s.len() && s[i] == a;
                if i < s.len() - 1 {
                    assert(t[i] == a);
                    assert(t.contains(a));
                    assert(run_addr_map(t).contains_key(a));
                    assert(run_addr_map(s).contains_key(a));
                } else {
                    assert(a == x);
                    assert(run_addr_map(s).contains_key(a));
                }
            }
        }
        if t.contains(x) {
            assert(run_addr_map(t).contains_key(x));
        } else {
            assert(!run_addr_map(t).contains_key(x));
        }
    }
}

/// An id once assigned never changes: the binding an address holds after a
/// prefix of the run still stands at the end of the run.
proof fn lemma_run_persist(s: Seq<Addr>, i: int, a: Addr)
    requires
        0 <= i <= s.len(),
        run_addr_map(s.take(i)).contains_key(a),
    ensures
        run_addr_map(s).contains_key(a),
        run_addr_map(s)[a] == run_addr_map(s.take(i))[a],
    decreases s.len() - i,
{
    if i == s.len() {
        assert(s.take(i) =~= s);
    } else {
        lemma_run_unfold(s, i);
        lemma_run_persist(s, i + 1, a);
    }
}

/// Every position's id is the binding its address holds from then on.
proof fn lemma_run_id_is_mapped(s: Seq<Addr>, i: int)
    requires
        0 <= i < s.len(),
    ensures
        run_ids(s).len() == s.len(),
        run_addr_map(s.take(i + 1)).contains_key(s[i]),
        run_addr_map(s.take(i + 1))[s[i]] == run_ids(s)[i],
{
    lemma_run_ids_at(s, i);
    lemma_run_unfold(s, i);
}

/// A prefix never holds more distinct addresses than the whole sequence.
proof fn lemma_distinct_count_monotone(s: Seq<Addr>, i: int)
    requires
        0 <= i <= s.len(),
    ensures
        0 <= distinct_count(s.take(i)) <= distinct_count(s),
    decreases s.len() - i,
{
    if i == s.len() {
        assert(s.take(i) =~= s);
        lemma_distinct_count_nonneg(s.take(i));
    } else {
        let p = s.take(i + 1);
        assert(p.drop_last() =~= s.take(i));
        lemma_distinct_count_monotone(s, i + 1);
        lemma_distinct_count_nonneg(s.take(i));
    }
}

/// No sequence holds a negative number of distinct addresses.
proof fn lemma_distinct_count_nonneg(s: Seq<Addr>)
    ensures
        distinct_count(s) >= 0,
    decreases s.len(),
{
    if s.len() > 0 {
        lemma_distinct_count_nonneg(s.drop_last());
    }
}

/// While at most 65536 distinct addresses have arrived, the registry maps
/// them to ids below its count, injectively.
proof fn lemma_run_injective(s: Seq<Addr>)
    requires
        distinct_count(s) <= FLOW_ID_SPACE,
    ensures
        forall|a: Addr| #[trigger] run_addr_map(s).contains_key(a) ==> run_addr_map(s)[a]
            < run_count(s),
        forall|a: Addr, b: Addr|
            run_addr_map(s).contains_key(a) && run_addr_map(s).contains_key(b) && a != b
                ==> run_addr_map(s)[a] != run_addr_map(s)[b],
    decreases s.len(),
{
    if s.len() > 0 {
        let t = s.drop_last();
        let x = s.last();
        lemma_run_basic(t);
        lemma_run_basic(s);
        lemma_distinct_count_nonneg(t);
        lemma_run_injective(t);
        if !run_addr_map(t).contains_key(x) {
            assert(distinct_count(s) == distinct_count(t) + 1);
            assert(run_count(t) < FLOW_ID_SPACE);
            assert(run_count(t) as u16 == run_count(t));
        }
    }
}

/// Law: in any one connection's run, repeated occurrences of the same
/// address receive identical ids.
pub proof fn lemma_same_addr_same_id(s: Seq<Addr>, i: int, j: int)
    requires
        0 <= i < s.len(),
        0 <= j < s.len(),
        s[i] == s[j],
    ensures
        run_ids(s).len() == s.len(),
        run_ids(s)[i] == run_ids(s)[j],
{
    lemma_run_ids_len(s);
    if i != j {
        let (lo, hi) = if i < j {
            (i, j)
        } else {
            (j, i)
        };
        lemma_run_id_is_mapped(s, lo);
        lemma_run_id_is_mapped(s, hi);
        let p = s.take(hi + 1);
        assert(p.take(lo + 1) =~= s.take(lo + 1));
        lemma_run_persist(p, lo + 1, s[lo]);
        assert(p.take(p.len() as int) =~= p);
    }
}

/// Law: ids are assigned in strict first-seen order starting at 0: the
/// address arriving at position `i` for the first time receives as its id
/// the number of distinct addresses seen before it.
pub proof fn lemma_first_seen_order(s: Seq<Addr>, i: int)
    requires
        0 <= i < s.len(),
        forall|k: int| 0 <= k < i ==> s[k] != s[i],
    ensures
        run_ids(s).len() == s.len(),
        run_ids(s)[i] == distinct_count(s.take(i)) as u16,
{
    lemma_run_ids_at(s, i);
    lemma_run_basic(s.take(i));
    if run_addr_map(s.take(i)).contains_key(s[i]) {
        let k = choose|k: int| 0 <= k < s.take(i).len() && s.take(i)[k] == s[i];
        assert(s[k] == s[i]);
        assert(false);
    }
}

/// Law: while at most 65536 distinct addresses have arrived in a
/// connection's run, distinct addresses receive distinct ids.
pub proof fn lemma_distinct_addrs_distinct_ids(s: Seq<Addr>, i: int, j: int)
    requires
        0 <= i < s.len(),
        0 <= j < s.len(),
        s[i] != s[j],
        distinct_count(s) <= FLOW_ID_SPACE,
    ensures
        run_ids(s).len() == s.len(),
        run_ids(s)[i] != run_ids(s)[j],
{
    lemma_run_ids_len(s);
    let hi = if i < j {
        j
    } else {
        i
    };
    let p = s.take(hi + 1);
    lemma_run_id_is_mapped(s, i);
    lemma_run_id_is_mapped(s, j);
    assert(p.take(i + 1) =~= s.take(i + 1));
    assert(p.take(j + 1) =~= s.take(j + 1));
    lemma_run_persist(p, i + 1, s[i]);
    lemma_run_persist(p, j + 1, s[j]);
    lemma_distinct_count_monotone(s, hi + 1);
    lemma_run_injective(p);
}

} // verus!
