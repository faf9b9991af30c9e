//! Operation ids: which declared ids are acceptable, and which id every
//! method without one receives.
//!
//! A method declares an id by a non-zero number; zero asks for an automatic
//! one. Declared ids must lie at or above [`RPC_ID_THRESHOLD`] and must differ
//! from each other. The automatic methods are then served in declaration
//! order: each receives the smallest number above the threshold that no
//! method has declared and that no earlier method has received.

use std::collections::HashSet;
use vstd::prelude::*;
use vstd::set_lib::{lemma_int_range, lemma_len_subset, lemma_map_size_bound, set_int_range};
use crate::model::{FunInfo, GenError, RPC_ID_THRESHOLD, table_ids};

verus! {

/// What is wrong with the id that method `k` declares, if anything: it lies
/// below the threshold, or an earlier method declares it too.
pub open spec fn id_fault(declared: Seq<i32>, k: int) -> Option<GenError> {
    let d = declared[k];
    if d == 0 {
        None
    } else if d < RPC_ID_THRESHOLD {
        Some(GenError::InvalidRpcId(d))
    } else if exists|j: int| 0 <= j < k && #[trigger] declared[j] == d {
        Some(GenError::DuplicateRpcId(d))
    } else {
        None
    }
}

/// Method `k` is the first, in declaration order, whose declared id is at fault.
pub open spec fn is_first_fault(declared: Seq<i32>, k: int) -> bool {
    &&& 0 <= k < declared.len()
    &&& id_fault(declared, k) is Some
    &&& forall|j: int| 0 <= j < k ==> #[trigger] id_fault(declared, j) is None
}

/// `v` is taken: some method declares it, or it is among the ids `given` so far.
pub open spec fn is_claimed(declared: Seq<i32>, given: Seq<int>, v: int) -> bool {
    ||| v != 0 && exists|j: int| 0 <= j < declared.len() && #[trigger] declared[j] == v
    ||| exists|j: int| 0 <= j < given.len() && #[trigger] given[j] == v
}

/// `v` is the smallest number above the threshold that is not taken.
pub open spec fn is_first_free(declared: Seq<i32>, given: Seq<int>, v: int) -> bool {
    &&& v > RPC_ID_THRESHOLD
    &&& !is_claimed(declared, given, v)
    &&& forall|w: int| RPC_ID_THRESHOLD < w < v ==> #[trigger] is_claimed(declared, given, w)
}

/// The smallest number above the threshold that is not taken.
pub open spec fn first_free(declared: Seq<i32>, given: Seq<int>) -> int {
    choose|v: int| is_first_free(declared, given, v)
}

/// The final ids of the first `n` methods: a declared id stays, and an
/// automatic method receives the first number that is free when its turn comes.
pub open spec fn assigned_ids(declared: Seq<i32>, n: nat) -> Seq<int>
    decreases n,
{
    if n == 0 {
        Seq::empty()
    } else {
        let given = assigned_ids(declared, (n - 1) as nat);
        let d = declared[n - 1];
        given.push(
            if d != 0 {
                d as int
            } else {
                first_free(declared, given)
            },
        )
    }
}

/// What id assignment comes to for the declared ids of a protocol: the error
/// of the first method at fault; else, where some automatic method would
/// receive a number that no `i32` holds, [`GenError::IdsExhausted`]; else
/// the final ids.
pub open spec fn setup_outcome(declared: Seq<i32>) -> Result<Seq<i32>, GenError> {
    let ids = assigned_ids(declared, declared.len());
    if exists|k: int| is_first_fault(declared, k) {
        Err(id_fault(declared, choose|k: int| is_first_fault(declared, k)).unwrap())
    } else if exists|k: int| 0 <= k < ids.len() && #[trigger] ids[k] > i32::MAX {
        Err(GenError::IdsExhausted)
    } else {
        Ok(ids.map_values(|v: int| v as i32))
    }
}

/// Assigns an operation id to every method that declares none.
///
/// Generation stops at the first method, in declaration order, whose declared
/// id lies below [`RPC_ID_THRESHOLD`] or repeats the declared id of an earlier
/// method: a dispatch table has one case for an id. Otherwise every declared
/// id stays, and the other methods receive, in declaration order, the smallest
/// number above the threshold that is neither declared by any method nor given
/// out before. Names and parameters are left alone, and on an error so is the
/// whole table.
pub fn setup_rpc_id(fun_infos: &mut Vec<FunInfo>) -> (r: Result<(), GenError>)
    ensures
        final(fun_infos).len() == old(fun_infos).len(),
        match setup_outcome(table_ids(old(fun_infos)@)) {
            Ok(ids) => {
                &&& r is Ok
                &&& table_ids(final(fun_infos)@) == ids
                &&& forall|k: int|
                    0 <= k < ids.len() ==> {
                        &&& (#[trigger] final(fun_infos)@[k]).name == old(fun_infos)@[k].name
                        &&& final(fun_infos)@[k].args == old(fun_infos)@[k].args
                    }
            },
            Err(e) => r == Err::<(), GenError>(e) && final(fun_infos)@ == old(fun_infos)@,
        },
{
    let ghost before = fun_infos@;
    let ghost declared = table_ids(fun_infos@);
    let n: usize = fun_infos.len();
    let mut ids: HashSet<i32> = HashSet::new();

    // The declared ids, each checked as it is met.
    let mut i: usize = 0;
    while i < n
        invariant
            i <= n,
            n == declared.len(),
            fun_infos@ == before,
            declared == table_ids(before),
            forall|j: int| 0 <= j < i ==> #[trigger] id_fault(declared, j) is None,
            forall|v: i32|
                ids@.contains(v) <==> v != 0 && exists|j: int|
                    0 <= j < i && #[trigger] declared[j] == v,
        decreases n - i,
    {
        let id: i32 = fun_infos[i].id;
        assert(declared[i as int] == id);
        if id != 0 {
            if id < RPC_ID_THRESHOLD {
                proof {
                    lemma_fault_outcome(declared, i as int);
                }
                return Err(GenError::InvalidRpcId(id));
            }
            let fresh: bool = ids.insert(id);
            if !fresh {
                proof {
                    lemma_fault_outcome(declared, i as int);
                }
                return Err(GenError::DuplicateRpcId(id));
            }
        }
        i = i + 1;
    }
    assert(!exists|k: int| is_first_fault(declared, k));

    // The final ids, in declaration order.
    let mut assigned: Vec<i32> = Vec::new();
    let mut last_index: i32 = RPC_ID_THRESHOLD;
    i = 0;
    while i < n
        invariant
            i <= n,
            n == declared.len(),
            fun_infos@ == before,
            declared == table_ids(before),
            !exists|k: int| is_first_fault(declared, k),
            assigned.len() == i,
            assigned_ids(declared, i as nat).len() == i,
            forall|j: int| 0 <= j < i ==> #[trigger] assigned[j] as int == assigned_ids(declared, i as nat)[j],
            forall|v: int|
                #[trigger] is_claimed(declared, assigned_ids(declared, i as nat), v) <==> i32::MIN <= v
                    <= i32::MAX && ids@.contains(v as i32),
            RPC_ID_THRESHOLD <= last_index,
            forall|w: i32| RPC_ID_THRESHOLD < w <= last_index ==> ids@.contains(w),
        decreases n - i,
    {
        let ghost given = assigned_ids(declared, i as nat);
        let id: i32 = fun_infos[i].id;
        assert(declared[i as int] == id);
        if id != 0 {
            assigned.push(id);
            proof {
                assert(assigned_ids(declared, (i + 1) as nat) == given.push(id as int));
                assert(is_claimed(declared, given, id as int));
                lemma_claimed_push(declared, given, id as int);
            }
        } else {
            let ghost held = ids@;
            loop
                invariant_except_break
                    ids@ == held,
                invariant
                    i < n,
                    n == declared.len(),
                    fun_infos@ == before,
                    declared == table_ids(before),
                    declared[i as int] == 0,
                    given == assigned_ids(declared, i as nat),
                    !exists|k: int| is_first_fault(declared, k),
                    forall|v: int|
                        #[trigger] is_claimed(declared, given, v) <==> i32::MIN <= v <= i32::MAX
                            && held.contains(v as i32),
                    RPC_ID_THRESHOLD <= last_index,
                    forall|w: i32| RPC_ID_THRESHOLD < w <= last_index ==> ids@.contains(w),
                ensures
                    RPC_ID_THRESHOLD < last_index,
                    !held.contains(last_index),
                    ids@ == held.insert(last_index),
                    forall|w: i32| RPC_ID_THRESHOLD < w < last_index ==> held.contains(w),
                decreases i32::MAX - last_index,
            {
                if last_index == i32::MAX {
                    proof {
                        let v = i32::MAX + 1;
                        assert forall|w: int| RPC_ID_THRESHOLD < w < v implies #[trigger] is_claimed(
                            declared,
                            given,
                            w,
                        ) by {
                            assert(held.contains(w as i32));
                        }
                        assert(is_first_free(declared, given, v));
                        lemma_first_free_unique(declared, given, v);
                        lemma_assigned_prefix(declared, (i + 1) as nat, n as nat);
                        let all = assigned_ids(declared, n as nat);
                        assert(assigned_ids(declared, (i + 1) as nat)[i as int] == v);
                        assert(all[i as int] == all.take(i + 1)[i as int]);
                        assert(all[i as int] > i32::MAX);
                    }
                    return Err(GenError::IdsExhausted);
                }
                last_index = last_index + 1;
                let fresh: bool = ids.insert(last_index);
                if fresh {
                    break ;
                }
            }
            assigned.push(last_index);
            proof {
                let v = last_index as int;
                assert forall|w: int| RPC_ID_THRESHOLD < w < v implies #[trigger] is_claimed(
                    declared,
                    given,
                    w,
                ) by {
                    assert(held.contains(w as i32));
                }
                assert(is_first_free(declared, given, v));
                lemma_first_free_unique(declared, given, v);
                assert(assigned_ids(declared, (i + 1) as nat) == given.push(v));
                lemma_claimed_push(declared, given, v);
            }
        }
        i = i + 1;
    }
    proof {
        let all = assigned_ids(declared, n as nat);
        assert forall|k: int| 0 <= k < all.len() implies #[trigger] all[k] <= i32::MAX by {
            assert(assigned[k] as int == all[k]);
        }
        assert(all.map_values(|v: int| v as i32) =~= assigned@);
        assert(setup_outcome(declared) == Ok::<Seq<i32>, GenError>(assigned@));
    }

    // The ids are written back only now that none is missing.
    i = 0;
    while i < n
        invariant
            i <= n,
            n == before.len(),
            n == assigned.len(),
            fun_infos.len() == n,
            forall|j: int|
                0 <= j < i ==> {
                    &&& (#[trigger] fun_infos@[j]).id == assigned[j]
                    &&& fun_infos@[j].name == before[j].name
                    &&& fun_infos@[j].args == before[j].args
                },
            forall|j: int| i <= j < n ==> #[trigger] fun_infos@[j] == before[j],
        decreases n - i,
    {
        fun_infos[i].id = assigned[i];
        i = i + 1;
    }
    assert(table_ids(fun_infos@) =~= assigned@);
    Ok(())
}

/// Declared ids stay: where every method declares an id at or above the
/// threshold and no two declare the same, assignment succeeds and changes no id.
pub proof fn law_declared_ids_stay(declared: Seq<i32>)
    requires
        forall|k: int| 0 <= k < declared.len() ==> #[trigger] declared[k] >= RPC_ID_THRESHOLD,
        forall|a: int, b: int|
            0 <= a < b < declared.len() ==> #[trigger] declared[a] != #[trigger] declared[b],
    ensures
        setup_outcome(declared) == Ok::<Seq<i32>, GenError>(declared),
{
    assert forall|k: int| !is_first_fault(declared, k) by {
        if 0 <= k < declared.len() {
            assert(declared[k] >= RPC_ID_THRESHOLD);
            assert(id_fault(declared, k) is None);
        }
    }
    lemma_declared_prefix(declared, declared.len());
    let ids = assigned_ids(declared, declared.len());
    assert(ids.map_values(|v: int| v as i32) =~= declared);
}

/// Automatic ids count up: where no method declares an id, the methods
/// receive, in declaration order, the numbers that follow the threshold, one
/// each; assignment fails only where these no longer fit an `i32`.
pub proof fn law_automatic_ids_count_up(declared: Seq<i32>)
    requires
        forall|k: int| 0 <= k < declared.len() ==> #[trigger] declared[k] == 0,
    ensures
        assigned_ids(declared, declared.len()) == Seq::new(
            declared.len(),
            |k: int| RPC_ID_THRESHOLD + 1 + k,
        ),
        declared.len() <= i32::MAX - RPC_ID_THRESHOLD ==> setup_outcome(declared) == Ok::<
            Seq<i32>,
            GenError,
        >(Seq::new(declared.len(), |k: int| (RPC_ID_THRESHOLD + 1 + k) as i32)),
        declared.len() > i32::MAX - RPC_ID_THRESHOLD ==> setup_outcome(declared) == Err::<
            Seq<i32>,
            GenError,
        >(GenError::IdsExhausted),
{
    assert forall|k: int| !is_first_fault(declared, k) by {
        if 0 <= k < declared.len() {
            assert(declared[k] == 0);
        }
    }
    lemma_automatic_prefix(declared, declared.len());
    let ids = assigned_ids(declared, declared.len());
    if declared.len() <= i32::MAX - RPC_ID_THRESHOLD {
        assert(ids.map_values(|v: int| v as i32) =~= Seq::new(
            declared.len(),
            |k: int| (RPC_ID_THRESHOLD + 1 + k) as i32,
        ));
    } else {
        assert(ids[declared.len() - 1] > i32::MAX);
    }
}

/// An id below the threshold stops generation: where some method declares a
/// non-zero id below the threshold, assignment fails, on that method or on an
/// earlier one that is at fault too.
pub proof fn law_low_id_fails(declared: Seq<i32>, k: int)
    requires
        0 <= k < declared.len(),
        declared[k] != 0,
        declared[k] < RPC_ID_THRESHOLD,
    ensures
        setup_outcome(declared) matches Err(e) && (e is InvalidRpcId || e is DuplicateRpcId),
{
    lemma_fault_has_first(declared, k);
}

/// Final ids are sound: where assignment succeeds, every method has an id, a
/// declared id has stayed and lies at or above the threshold, an automatic id
/// lies above it, and no two methods share an id.
pub proof fn law_final_ids_distinct(declared: Seq<i32>)
    requires
        setup_outcome(declared) is Ok,
    ensures
        ({
            let ids = setup_outcome(declared)->Ok_0;
            &&& ids.len() == declared.len()
            &&& forall|k: int|
                0 <= k < ids.len() && declared[k] != 0 ==> #[trigger] ids[k] == declared[k] && ids[k]
                    >= RPC_ID_THRESHOLD
            &&& forall|k: int|
                0 <= k < ids.len() && declared[k] == 0 ==> #[trigger] ids[k] > RPC_ID_THRESHOLD
            &&& forall|a: int, b: int|
                0 <= a < b < ids.len() ==> #[trigger] ids[a] != #[trigger] ids[b]
        }),
{
    assert forall|k: int| 0 <= k < declared.len() implies #[trigger] id_fault(declared, k) is None by {
        if id_fault(declared, k) is Some {
            lemma_fault_has_first(declared, k);
        }
    }
    lemma_settled(declared, declared.len());
    let all = assigned_ids(declared, declared.len());
    let ids = setup_outcome(declared)->Ok_0;
    assert forall|k: int| 0 <= k < ids.len() implies #[trigger] ids[k] == all[k] by {
        assert(all[k] <= i32::MAX);
        if declared[k] == 0 {
            assert(all[k] > RPC_ID_THRESHOLD);
        } else {
            assert(all[k] == declared[k]);
        }
    }
    assert forall|k: int| 0 <= k < ids.len() && declared[k] != 0 implies #[trigger] ids[k]
        == declared[k] && ids[k] >= RPC_ID_THRESHOLD by {
        assert(id_fault(declared, k) is None);
    }
    assert forall|a: int, b: int| 0 <= a < b < ids.len() implies #[trigger] ids[a]
        != #[trigger] ids[b] by {
        assert(all[a] != all[b]);
    }
}

/// An automatic id is the first free one: where assignment succeeds, the id of
/// a method that declares none lies above the threshold, is declared by no
/// method and borne by no earlier one, and every smaller number above the
/// threshold is declared by a method or borne by an earlier one.
pub proof fn law_automatic_id_is_first_free(declared: Seq<i32>, k: int)
    requires
        setup_outcome(declared) is Ok,
        0 <= k < declared.len(),
        declared[k] == 0,
    ensures
        is_first_free(
            declared,
            setup_outcome(declared)->Ok_0.take(k).map_values(|v: i32| v as int),
            setup_outcome(declared)->Ok_0[k] as int,
        ),
{
    assert forall|j: int| 0 <= j < declared.len() implies #[trigger] id_fault(declared, j) is None by {
        if id_fault(declared, j) is Some {
            lemma_fault_has_first(declared, j);
        }
    }
    let all = assigned_ids(declared, declared.len());
    let ids = setup_outcome(declared)->Ok_0;
    let given = assigned_ids(declared, k as nat);
    lemma_settled(declared, declared.len());
    lemma_settled(declared, k as nat);
    lemma_first_free_exists(declared, given, i32::MAX + k);
    lemma_assigned_prefix(declared, k as nat, declared.len());
    lemma_assigned_prefix(declared, (k + 1) as nat, declared.len());
    assert(all[k] == all.take(k + 1)[k]);
    assert forall|j: int| 0 <= j < ids.len() implies #[trigger] ids[j] == all[j] by {
        assert(all[j] <= i32::MAX);
        if declared[j] == 0 {
            assert(all[j] > RPC_ID_THRESHOLD);
        } else {
            assert(all[j] == declared[j]);
        }
    }
    assert(ids.take(k).map_values(|v: i32| v as int) =~= given);
}

/// Ids suffice: where no declared id is at fault and the methods number at
/// most `i32::MAX` less the threshold, assignment succeeds, and no automatic id
/// lies further above the threshold than there are methods.
pub proof fn law_ids_suffice(declared: Seq<i32>)
    requires
        forall|k: int| 0 <= k < declared.len() ==> #[trigger] id_fault(declared, k) is None,
        declared.len() <= i32::MAX - RPC_ID_THRESHOLD,
    ensures
        setup_outcome(declared) is Ok,
        forall|k: int|
            0 <= k < declared.len() && declared[k] == 0 ==> #[trigger] setup_outcome(
                declared,
            )->Ok_0[k] <= RPC_ID_THRESHOLD + declared.len(),
{
    let all = assigned_ids(declared, declared.len());
    lemma_settled(declared, declared.len());
    assert forall|k: int| 0 <= k < all.len() implies #[trigger] all[k] <= i32::MAX && (declared[k]
        == 0 ==> all[k] <= RPC_ID_THRESHOLD + declared.len()) by {
        if declared[k] == 0 {
            lemma_automatic_id_bound(declared, k);
        } else {
            assert(all[k] == declared[k]);
        }
    }
    assert forall|k: int| !is_first_fault(declared, k) by {
        if 0 <= k < declared.len() {
            assert(id_fault(declared, k) is None);
        }
    }
    let ids = setup_outcome(declared)->Ok_0;
    assert forall|k: int| 0 <= k < declared.len() && declared[k] == 0 implies #[trigger] ids[k]
        <= RPC_ID_THRESHOLD + declared.len() by {
        assert(all[k] <= RPC_ID_THRESHOLD + declared.len());
        assert(all[k] > RPC_ID_THRESHOLD);
    }
}

/// Below the id of an automatic method every number above the threshold is
/// the id of another method, so there are no more of them than other methods.
proof fn lemma_automatic_id_bound(declared: Seq<i32>, k: int)
    requires
        forall|j: int| 0 <= j < declared.len() ==> #[trigger] id_fault(declared, j) is None,
        0 <= k < declared.len(),
        declared[k] == 0,
    ensures
        assigned_ids(declared, declared.len())[k] <= RPC_ID_THRESHOLD + declared.len(),
{
    let n = declared.len();
    let all = assigned_ids(declared, n);
    let given = assigned_ids(declared, k as nat);
    let v = all[k];
    lemma_settled(declared, n);
    lemma_settled(declared, k as nat);
    lemma_first_free_exists(declared, given, i32::MAX + k);
    lemma_assigned_prefix(declared, k as nat, n);
    lemma_assigned_prefix(declared, (k + 1) as nat, n);
    assert(all[k] == all.take(k + 1)[k]);
    assert(is_first_free(declared, given, v));

    let below = set_int_range(RPC_ID_THRESHOLD + 1, v);
    let others = set_int_range(0, n as int).remove(k);
    let id_of = |j: int| all[j];
    let borne = others.map(id_of);
    lemma_int_range(RPC_ID_THRESHOLD + 1, v);
    lemma_int_range(0, n as int);
    lemma_map_size_bound(others, borne, id_of);
    assert forall|w: int| below.contains(w) implies borne.contains(w) by {
        assert(is_claimed(declared, given, w));
        if w != 0 && exists|j: int| 0 <= j < declared.len() && #[trigger] declared[j] == w {
            let j = choose|j: int| 0 <= j < declared.len() && #[trigger] declared[j] == w;
            assert(all[j] == declared[j]);
            assert(others.contains(j) && w == id_of(j));
        } else {
            let j = choose|j: int| 0 <= j < given.len() && #[trigger] given[j] == w;
            assert(given[j] == all.take(k)[j]);
            assert(others.contains(j) && w == id_of(j));
        }
    }
    lemma_len_subset(below, borne);
}

proof fn lemma_first_fault_unique(declared: Seq<i32>, a: int, b: int)
    requires
        is_first_fault(declared, a),
        is_first_fault(declared, b),
    ensures
        a == b,
{
    if a < b {
        assert(id_fault(declared, a) is None);
    } else if b < a {
        assert(id_fault(declared, b) is None);
    }
}

proof fn lemma_fault_outcome(declared: Seq<i32>, k: int)
    requires
        is_first_fault(declared, k),
    ensures
        setup_outcome(declared) == Err::<Seq<i32>, GenError>(id_fault(declared, k).unwrap()),
{
    let c = choose|c: int| is_first_fault(declared, c);
    lemma_first_fault_unique(declared, c, k);
}

proof fn lemma_fault_has_first(declared: Seq<i32>, k: int)
    requires
        0 <= k < declared.len(),
        id_fault(declared, k) is Some,
    ensures
        exists|f: int| is_first_fault(declared, f),
    decreases k,
{
    if forall|j: int| 0 <= j < k ==> #[trigger] id_fault(declared, j) is None {
        assert(is_first_fault(declared, k));
    } else {
        let j = choose|j: int| 0 <= j < k && !(#[trigger] id_fault(declared, j) is None);
        lemma_fault_has_first(declared, j);
    }
}

proof fn lemma_first_free_unique(declared: Seq<i32>, given: Seq<int>, v: int)
    requires
        is_first_free(declared, given, v),
    ensures
        first_free(declared, given) == v,
{
    let c = first_free(declared, given);
    assert(is_first_free(declared, given, c));
    if c < v {
        assert(is_claimed(declared, given, c));
    } else if v < c {
        assert(is_claimed(declared, given, v));
    }
}

proof fn lemma_least_free(declared: Seq<i32>, given: Seq<int>, v: int)
    requires
        v > RPC_ID_THRESHOLD,
        !is_claimed(declared, given, v),
    ensures
        exists|f: int| is_first_free(declared, given, f) && f <= v,
    decreases v - RPC_ID_THRESHOLD,
{
    if forall|w: int| RPC_ID_THRESHOLD < w < v ==> #[trigger] is_claimed(declared, given, w) {
        assert(is_first_free(declared, given, v));
    } else {
        let w = choose|w: int|
            RPC_ID_THRESHOLD < w < v && !(#[trigger] is_claimed(declared, given, w));
        lemma_least_free(declared, given, w);
    }
}

proof fn lemma_first_free_exists(declared: Seq<i32>, given: Seq<int>, bound: int)
    requires
        bound >= i32::MAX,
        forall|j: int| 0 <= j < given.len() ==> #[trigger] given[j] <= bound,
    ensures
        is_first_free(declared, given, first_free(declared, given)),
        first_free(declared, given) <= bound + 1,
{
    lemma_least_free(declared, given, bound + 1);
    let f = choose|f: int| is_first_free(declared, given, f) && f <= bound + 1;
    lemma_first_free_unique(declared, given, f);
}

proof fn lemma_claimed_push(declared: Seq<i32>, given: Seq<int>, v: int)
    ensures
        forall|x: int| #[trigger]
            is_claimed(declared, given.push(v), x) <==> is_claimed(declared, given, x) || x == v,
{
    let next = given.push(v);
    assert forall|x: int| #[trigger]
        is_claimed(declared, next, x) <==> is_claimed(declared, given, x) || x == v by {
        if is_claimed(declared, next, x) && !is_claimed(declared, given, x) {
            let j = choose|j: int| 0 <= j < next.len() && #[trigger] next[j] == x;
            assert(j == given.len());
        }
        if is_claimed(declared, given, x) && !(x != 0 && exists|j: int|
            0 <= j < declared.len() && #[trigger] declared[j] == x) {
            let j = choose|j: int| 0 <= j < given.len() && #[trigger] given[j] == x;
            assert(next[j] == x);
        }
        if x == v {
            assert(next[given.len() as int] == x);
        }
    }
}

proof fn lemma_assigned_len(declared: Seq<i32>, n: nat)
    ensures
        assigned_ids(declared, n).len() == n,
    decreases n,
{
    if n > 0 {
        lemma_assigned_len(declared, (n - 1) as nat);
    }
}

proof fn lemma_assigned_prefix(declared: Seq<i32>, m: nat, n: nat)
    requires
        m <= n,
    ensures
        assigned_ids(declared, n).len() == n,
        assigned_ids(declared, m) =~= assigned_ids(declared, n).take(m as int),
    decreases n,
{
    lemma_assigned_len(declared, n);
    lemma_assigned_len(declared, m);
    if m < n {
        lemma_assigned_prefix(declared, m, (n - 1) as nat);
    }
}

/// The ids of the first `n` methods are settled: a declared id has stayed, an
/// automatic one lies above the threshold and is declared by no method, and
/// no two of them are equal.
spec fn settled(declared: Seq<i32>, ids: Seq<int>, n: nat) -> bool {
    &&& ids.len() == n
    &&& forall|j: int| 0 <= j < n ==> #[trigger] ids[j] <= i32::MAX + n
    &&& forall|j: int| 0 <= j < n && declared[j] != 0 ==> #[trigger] ids[j] == declared[j]
    &&& forall|j: int|
        0 <= j < n && declared[j] == 0 ==> #[trigger] ids[j] > RPC_ID_THRESHOLD && !is_claimed(
            declared,
            Seq::empty(),
            ids[j],
        )
    &&& forall|a: int, b: int| 0 <= a < b < n ==> #[trigger] ids[a] != #[trigger] ids[b]
}

proof fn lemma_settled(declared: Seq<i32>, n: nat)
    requires
        n <= declared.len(),
        forall|k: int| 0 <= k < declared.len() ==> #[trigger] id_fault(declared, k) is None,
    ensures
        settled(declared, assigned_ids(declared, n), n),
    decreases n,
{
    if n > 0 {
        let m = (n - 1) as nat;
        let given = assigned_ids(declared, m);
        let ids = assigned_ids(declared, n);
        lemma_settled(declared, m);
        let d = declared[m as int];
        assert(id_fault(declared, m as int) is None);
        if d == 0 {
            lemma_first_free_exists(declared, given, i32::MAX + m);
            let v = first_free(declared, given);
            assert(ids == given.push(v));
            assert(!is_claimed(declared, Seq::empty(), v));
            assert forall|a: int| 0 <= a < m implies #[trigger] ids[a] != v by {
                assert(given[a] == ids[a]);
            }
        } else {
            assert(ids == given.push(d as int));
            assert forall|a: int| 0 <= a < m implies #[trigger] ids[a] != d by {
                assert(given[a] == ids[a]);
                if declared[a] == 0 {
                    assert(!is_claimed(declared, Seq::empty(), given[a]));
                    assert(declared[m as int] == d);
                } else {
                    assert(declared[a] == given[a]);
                }
            }
        }
        assert forall|a: int, b: int| 0 <= a < b < n implies #[trigger] ids[a] != #[trigger] ids[b] by {
            if b < m {
                assert(given[a] != given[b]);
            }
        }
    }
}

proof fn lemma_declared_prefix(declared: Seq<i32>, n: nat)
    requires
        n <= declared.len(),
        forall|k: int| 0 <= k < declared.len() ==> #[trigger] declared[k] != 0,
    ensures
        assigned_ids(declared, n) =~= Seq::new(n, |k: int| declared[k] as int),
    decreases n,
{
    if n > 0 {
        lemma_declared_prefix(declared, (n - 1) as nat);
    }
}

proof fn lemma_automatic_prefix(declared: Seq<i32>, n: nat)
    requires
        n <= declared.len(),
        forall|k: int| 0 <= k < declared.len() ==> #[trigger] declared[k] == 0,
    ensures
        assigned_ids(declared, n) =~= Seq::new(n, |k: int| RPC_ID_THRESHOLD + 1 + k),
    decreases n,
{
    if n > 0 {
        let m = (n - 1) as nat;
        lemma_automatic_prefix(declared, m);
        let given = assigned_ids(declared, m);
        let v = RPC_ID_THRESHOLD + 1 + m;
        assert forall|w: int| RPC_ID_THRESHOLD < w < v implies #[trigger] is_claimed(
            declared,
            given,
            w,
        ) by {
            assert(given[w - RPC_ID_THRESHOLD - 1] == w);
        }
        assert(is_first_free(declared, given, v));
        lemma_first_free_unique(declared, given, v);
    }
}

} // verus!
