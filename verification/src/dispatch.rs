//! What a generated dispatcher does with a packet, as a decision on the id
//! that leads it.
//!
//! The generated entry point unpacks the leading id and hands it to the
//! dispatch table, whose `match` runs the first case that bears the id. The
//! functions here take that decision on a method table, so that it can be
//! stated and tested without a connection.

use vstd::prelude::*;
use crate::ids::{law_final_ids_distinct, setup_outcome};
use crate::model::{FunInfo, table_ids};

verus! {

/// Where a packet goes.
#[derive(Debug, Clone, Copy, PartialEq, Eq, Structural)]
pub enum Routing {
    /// To the case of the method at this position of the table, which unpacks
    /// the arguments and calls the method, or reports that they do not unpack.
    Case(usize),
    /// Nowhere: no case bears this id. It is reported and no method is called.
    UnknownOperation(i32),
    /// Nowhere: the packet holds no id. That is reported and no method is called.
    InvalidOperationId,
}

/// Method `k` is the first of the table that bears `rpc_id`.
pub open spec fn is_case(ids: Seq<i32>, rpc_id: i32, k: int) -> bool {
    &&& 0 <= k < ids.len()
    &&& ids[k] == rpc_id
    &&& forall|j: int| 0 <= j < k ==> #[trigger] ids[j] != rpc_id
}

/// `routing` is where a packet goes whose leading id unpacked to `leading`, or
/// did not unpack where that is `None`, under a table with the ids `ids`.
pub open spec fn routes(ids: Seq<i32>, leading: Option<i32>, routing: Routing) -> bool {
    match leading {
        None => routing == Routing::InvalidOperationId,
        Some(rpc_id) => match routing {
            Routing::Case(k) => is_case(ids, rpc_id, k as int),
            Routing::UnknownOperation(id) => id == rpc_id && forall|j: int|
                0 <= j < ids.len() ==> #[trigger] ids[j] != rpc_id,
            Routing::InvalidOperationId => false,
        },
    }
}

/// Decides where a packet goes.
pub fn route(fun_infos: &Vec<FunInfo>, leading: Option<i32>) -> (routing: Routing)
    ensures
        routes(table_ids(fun_infos@), leading, routing),
{
    let rpc_id: i32 = match leading {
        Some(rpc_id) => rpc_id,
        None => {
            return Routing::InvalidOperationId;
        },
    };
    let mut k: usize = 0;
    while k < fun_infos.len()
        invariant
            k <= fun_infos.len(),
            leading == Some(rpc_id),
            forall|j: int| 0 <= j < k ==> #[trigger] table_ids(fun_infos@)[j] != rpc_id,
        decreases fun_infos.len() - k,
    {
        if fun_infos[k].id == rpc_id {
            assert(table_ids(fun_infos@)[k as int] == rpc_id);
            return Routing::Case(k);
        }
        assert(table_ids(fun_infos@)[k as int] != rpc_id);
        k = k + 1;
    }
    Routing::UnknownOperation(rpc_id)
}

/// A packet goes to one place only.
pub proof fn law_routing_is_unique(ids: Seq<i32>, leading: Option<i32>, a: Routing, b: Routing)
    requires
        routes(ids, leading, a),
        routes(ids, leading, b),
    ensures
        a == b,
{
    if let (Some(rpc_id), Routing::Case(x), Routing::Case(y)) = (leading, a, b) {
        if x < y {
            assert(ids[x as int] != rpc_id);
        } else if y < x {
            assert(ids[y as int] != rpc_id);
        }
    }
}

/// An id that no method bears reaches no method: the packet is reported as
/// one of an unknown operation.
pub proof fn law_unknown_id_reaches_no_case(ids: Seq<i32>, rpc_id: i32, routing: Routing)
    requires
        forall|j: int| 0 <= j < ids.len() ==> #[trigger] ids[j] != rpc_id,
        routes(ids, Some(rpc_id), routing),
    ensures
        routing == Routing::UnknownOperation(rpc_id),
{
}

/// The id that the proxy method of a method sends reaches the case of that
/// same method: under the final ids of a protocol, a packet led by the id of
/// method `m` goes to case `m`.
pub proof fn law_id_reaches_its_method(declared: Seq<i32>, m: int, routing: Routing)
    requires
        setup_outcome(declared) is Ok,
        0 <= m < declared.len(),
        routes(setup_outcome(declared)->Ok_0, Some(setup_outcome(declared)->Ok_0[m]), routing),
    ensures
        routing matches Routing::Case(k) && k == m,
{
    law_final_ids_distinct(declared);
    let ids = setup_outcome(declared)->Ok_0;
    match routing {
        Routing::Case(k) => {
            if k < m {
                assert(ids[k as int] != ids[m]);
            } else if m < k {
                assert(ids[m] != ids[k as int]);
            }
        },
        Routing::UnknownOperation(_) => {
            assert(ids[m] != ids[m]);
        },
        Routing::InvalidOperationId => {},
    }
}

} // verus!
