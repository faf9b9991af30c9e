//! Code generation for remote-call protocols.
//!
//! A protocol is a trait whose methods can be called from the other end of a
//! connection. From the trait's definition this crate derives a numeric
//! operation id for every method, the dispatch table that routes an incoming
//! packet to the method it names, and the remote proxy whose methods pack their
//! arguments and hand the packet to a sender. What it generates is source text.

pub mod model;
pub mod ids;
pub mod text;
pub mod parse;
pub mod emit;
pub mod dispatch;

pub use dispatch::{route, Routing};
pub use emit::{
    client_to_remote_type, derive_dispatcher, expand_protocol, expand_table, protocol,
    protocol_impl, rpc, server_to_remote_type, services_derive,
};
pub use ids::setup_rpc_id;
pub use model::{
    DispatchFlavor, Expansion, FnArg, FunInfo, GenError, ItemStruct, ItemTrait, Meta, Pat,
    TraitItem, TraitItemFn, RPC_ID_THRESHOLD,
};
pub use parse::{
    build_fun_item, parse_fun_args, parse_fun_item, parse_fun_items, parse_rpc_id, select_rpc_id,
};
