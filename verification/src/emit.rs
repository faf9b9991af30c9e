//! The generated source text: the dispatch table of a protocol, its remote
//! proxy, the entry point of a dispatcher, and the names of proxy types.

use vstd::prelude::*;
use vstd::string::*;
use crate::ids::{setup_outcome, setup_rpc_id};
use crate::model::{
    DispatchFlavor, Expansion, ExpansionView, FunInfo, FunInfoView, GenError, ItemStruct,
    ItemTrait, table_ids, table_view,
};
use crate::parse::{
    all_plain, fun_infos_of, is_table, numbers_fit, parse_fun_items, plain_numbers,
};
use crate::text::{
    append_decimal, decimal, join, join_strings, joined, law_decimal_tells_numbers_apart,
    string_texts, texts,
};

verus! {

/// An operation id as a literal of type `i32`.
pub open spec fn id_literal(id: int) -> Seq<char> {
    decimal(id) + "i32"@
}

/// Different ids are different literals, so no two cases of a dispatch table
/// whose methods bear different ids stand under the same pattern.
pub proof fn law_id_literals_differ(a: int, b: int)
    requires
        a != b,
    ensures
        id_literal(a) != id_literal(b),
{
    law_decimal_tells_numbers_apart(a, b);
    let suffix = "i32"@;
    if id_literal(a) == id_literal(b) {
        assert(decimal(a).len() == decimal(b).len()) by {
            assert(id_literal(a).len() == decimal(a).len() + suffix.len());
            assert(id_literal(b).len() == decimal(b).len() + suffix.len());
        }
        assert(decimal(a) =~= id_literal(a).take(decimal(a).len() as int));
        assert(decimal(b) =~= id_literal(b).take(decimal(b).len() as int));
    }
}

/// The parameter names of a method, in call order.
pub open spec fn arg_names(info: FunInfoView) -> Seq<Seq<char>> {
    info.args.map_values(|arg: (Seq<char>, Seq<char>)| arg.0)
}

/// The parameter types of a method, in call order.
pub open spec fn arg_types(info: FunInfoView) -> Seq<Seq<char>> {
    info.args.map_values(|arg: (Seq<char>, Seq<char>)| arg.1)
}

/// The parameters of a method as they are declared: `name: type`, in call order.
pub open spec fn arg_decls(info: FunInfoView) -> Seq<Seq<char>> {
    info.args.map_values(|arg: (Seq<char>, Seq<char>)| arg.0 + ": "@ + arg.1)
}

/// What follows a call of the method in a dispatch case.
pub open spec fn call_end(flavor: DispatchFlavor) -> Seq<char> {
    match flavor {
        DispatchFlavor::Synchronous => ";"@,
        DispatchFlavor::Suspending => ".await;"@,
    }
}

/// The keywords that open a dispatching function.
pub open spec fn fn_start(flavor: DispatchFlavor) -> Seq<char> {
    match flavor {
        DispatchFlavor::Synchronous => "fn "@,
        DispatchFlavor::Suspending => "async fn "@,
    }
}

/// The dispatch case of a method: under the method's id the packet is
/// unpacked into the parameter types, in call order; the method is called
/// with what came out, and a packet that does not unpack is reported with the
/// id and the method's name.
pub open spec fn match_arm(info: FunInfoView, flavor: DispatchFlavor) -> Seq<char> {
    id_literal(info.id as int) + " => { if let Some(("@ + joined(arg_names(info), ", "@)
        + ")) = rcall::unpack!(packet, "@ + joined(arg_types(info), ", "@) + ") { self."@
        + info.name + "("@ + joined(arg_names(info), ", "@) + ")"@ + call_end(flavor)
        + " } else { println!(\"error in calling rpc: {}:{}\", rpc_id, stringify!("@ + info.name
        + ")); } }"@
}

/// The proxy method of a method: it has the method's parameters, packs the
/// method's id and then the arguments, in call order, and hands the packet to
/// the sender.
pub open spec fn remote_stub(info: FunInfoView) -> Seq<char> {
    "pub fn "@ + info.name + "(&mut self, "@ + joined(arg_decls(info), ", "@)
        + ") { let rpc_id: rcall::RpcId = "@ + id_literal(info.id as int)
        + "; let packet = rcall::pack!(rpc_id, "@ + joined(arg_names(info), ", "@)
        + "); self.sender.send(packet); }"@
}

/// The dispatch cases of a table, in order.
pub open spec fn match_arms(infos: Seq<FunInfoView>, flavor: DispatchFlavor) -> Seq<Seq<char>> {
    infos.map_values(|info: FunInfoView| match_arm(info, flavor))
}

/// The proxy methods of a table, in order.
pub open spec fn remote_stubs(infos: Seq<FunInfoView>) -> Seq<Seq<char>> {
    infos.map_values(|info: FunInfoView| remote_stub(info))
}

/// The dispatch table: one case for each method, in order, and last the case
/// of every other id, which reports the id and calls nothing.
pub open spec fn dispatcher_text(infos: Seq<FunInfoView>, flavor: DispatchFlavor) -> Seq<char> {
    fn_start(flavor)
        + "_dispatch_rpc(&mut self, rpc_id: i32, mut packet: rcall::packer::Packet) { match rpc_id { "@
        + joined(match_arms(infos, flavor), " "@)
        + " _ => { println!(\"invalid rpc_id: {}\", rpc_id); } } }"@
}

/// The remote proxy of the protocol `name`: a struct over any sender that
/// holds one, with `new`, with `close`, which closes the sender, and with one
/// method for each method of the table, in order.
pub open spec fn remote_text(name: Seq<char>, infos: Seq<FunInfoView>) -> Seq<char> {
    "pub struct "@ + name + "_Remote<T: rcall::Sender> { sender: T } impl<T: rcall::Sender> "@
        + name + "_Remote<T> { pub fn new(sender: T) -> Self { "@ + name
        + "_Remote { sender } } pub fn close(&mut self) { self.sender.close(); } "@ + joined(
        remote_stubs(infos),
        " "@,
    ) + " }"@
}

/// The entry point of a dispatcher for a struct: it unpacks the id that leads
/// the packet and passes id and packet on to the dispatch table; a packet
/// without an id is reported and nothing more is done.
pub open spec fn entry_text(
    ident: Seq<char>,
    impl_generics: Seq<char>,
    type_generics: Seq<char>,
    where_clause: Seq<char>,
    flavor: DispatchFlavor,
) -> Seq<char> {
    "impl "@ + impl_generics + " rcall::RpcDispatcher for "@ + ident + " "@ + type_generics + " "@
        + where_clause + " { "@ + fn_start(flavor)
        + "dispatch_rpc(&mut self, mut packet: rcall::Packet) { use rcall::UnpackFrom; if let Some(rpc_id) = <rcall::RpcId>::unpack_from(&mut packet) { self._dispatch_rpc(rpc_id, packet)"@
        + call_end(flavor) + " } else { println!(\"invalid rpc_id!\"); } } }"@
}

/// The table `infos` with the ids `ids` in place of its own.
pub open spec fn with_ids(infos: Seq<FunInfoView>, ids: Seq<i32>) -> Seq<FunInfoView> {
    Seq::new(
        infos.len(),
        |k: int| FunInfoView { name: infos[k].name, id: ids[k], args: infos[k].args },
    )
}

/// The ids of a table, in order.
pub open spec fn view_ids(infos: Seq<FunInfoView>) -> Seq<i32> {
    infos.map_values(|info: FunInfoView| info.id)
}

/// What generation comes to for the protocol `name` with the method table
/// `infos`: the error of id assignment, or the dispatch table and the remote
/// proxy of the methods with their final ids.
pub open spec fn table_outcome(name: Seq<char>, infos: Seq<FunInfoView>, flavor: DispatchFlavor) -> Result<
    ExpansionView,
    GenError,
> {
    match setup_outcome(view_ids(infos)) {
        Err(e) => Err(e),
        Ok(ids) => Ok(
            ExpansionView {
                dispatcher: dispatcher_text(with_ids(infos, ids), flavor),
                remote: remote_text(name, with_ids(infos, ids)),
            },
        ),
    }
}

/// What generation comes to for a trait whose methods' attributes give the
/// numbers `numbers`: the error of the first method that cannot be read, or
/// what generation comes to for its method table.
pub open spec fn protocol_outcome(
    item: ItemTrait,
    numbers: Seq<Seq<Option<i32>>>,
    flavor: DispatchFlavor,
) -> Result<ExpansionView, GenError> {
    match fun_infos_of(item.items@, numbers) {
        Err(e) => Err(e),
        Ok(infos) => table_outcome(item.ident@, infos, flavor),
    }
}

/// `r` is the expansion `wanted`, or the error that stands in its place.
pub open spec fn is_expansion(
    r: Result<Expansion, GenError>,
    wanted: Result<ExpansionView, GenError>,
) -> bool {
    match wanted {
        Ok(expansion) => r is Ok && r->Ok_0@ == expansion,
        Err(e) => r == Err::<Expansion, GenError>(e),
    }
}

/// The parameter names of a method, in call order.
pub fn gen_arg_names<'a>(fun_info: &'a FunInfo) -> (names: Vec<&'a str>)
    ensures
        texts(names@) == arg_names(fun_info@),
{
    let mut result: Vec<&'a str> = Vec::new();
    let mut i: usize = 0;
    while i < fun_info.args.len()
        invariant
            i <= fun_info.args.len(),
            result.len() == i,
            forall|j: int| 0 <= j < i ==> (#[trigger] result[j])@ == fun_info.args[j].0@,
        decreases fun_info.args.len() - i,
    {
        result.push(fun_info.args[i].0.as_str());
        i = i + 1;
    }
    assert(texts(result@) =~= arg_names(fun_info@));
    result
}

/// The parameter types of a method, in call order.
pub fn gen_arg_types<'a>(fun_info: &'a FunInfo) -> (types: Vec<&'a str>)
    ensures
        texts(types@) == arg_types(fun_info@),
{
    let mut result: Vec<&'a str> = Vec::new();
    let mut i: usize = 0;
    while i < fun_info.args.len()
        invariant
            i <= fun_info.args.len(),
            result.len() == i,
            forall|j: int| 0 <= j < i ==> (#[trigger] result[j])@ == fun_info.args[j].1@,
        decreases fun_info.args.len() - i,
    {
        result.push(fun_info.args[i].1.as_str());
        i = i + 1;
    }
    assert(texts(result@) =~= arg_types(fun_info@));
    result
}

/// The parameters of a method as they are declared, in call order.
fn gen_arg_decls(fun_info: &FunInfo) -> (decls: Vec<String>)
    ensures
        string_texts(decls@) == arg_decls(fun_info@),
{
    let mut result: Vec<String> = Vec::new();
    let mut i: usize = 0;
    while i < fun_info.args.len()
        invariant
            i <= fun_info.args.len(),
            result.len() == i,
            forall|j: int|
                0 <= j < i ==> (#[trigger] result[j])@ == fun_info.args[j].0@ + ": "@
                    + fun_info.args[j].1@,
        decreases fun_info.args.len() - i,
    {
        let mut decl = String::new();
        decl.append(fun_info.args[i].0.as_str());
        decl.append(": ");
        decl.append(fun_info.args[i].1.as_str());
        assert(decl@ =~= fun_info.args[i as int].0@ + ": "@ + fun_info.args[i as int].1@);
        result.push(decl);
        i = i + 1;
    }
    assert(string_texts(result@) =~= arg_decls(fun_info@));
    result
}

fn append_id_literal(out: &mut String, id: i32)
    ensures
        final(out)@ == old(out)@ + id_literal(id as int),
{
    append_decimal(out, id);
    out.append("i32");
    assert(out@ =~= old(out)@ + id_literal(id as int));
}

fn append_call_end(out: &mut String, flavor: DispatchFlavor)
    ensures
        final(out)@ == old(out)@ + call_end(flavor),
{
    match flavor {
        DispatchFlavor::Synchronous => out.append(";"),
        DispatchFlavor::Suspending => out.append(".await;"),
    }
}

fn append_fn_start(out: &mut String, flavor: DispatchFlavor)
    ensures
        final(out)@ == old(out)@ + fn_start(flavor),
{
    match flavor {
        DispatchFlavor::Synchronous => out.append("fn "),
        DispatchFlavor::Suspending => out.append("async fn "),
    }
}

/// The dispatch case of one method.
pub fn gen_match_arm(fun_info: &FunInfo, flavor: DispatchFlavor) -> (arm: String)
    ensures
        arm@ == match_arm(fun_info@, flavor),
{
    let names = join(&gen_arg_names(fun_info), ", ");
    let types = join(&gen_arg_types(fun_info), ", ");
    let mut out = String::new();
    append_id_literal(&mut out, fun_info.id);
    out.append(" => { if let Some((");
    out.append(names.as_str());
    out.append(")) = rcall::unpack!(packet, ");
    out.append(types.as_str());
    out.append(") { self.");
    out.append(fun_info.name.as_str());
    out.append("(");
    out.append(names.as_str());
    out.append(")");
    append_call_end(&mut out, flavor);
    out.append(" } else { println!(\"error in calling rpc: {}:{}\", rpc_id, stringify!(");
    out.append(fun_info.name.as_str());
    out.append(")); } }");
    assert(out@ =~= match_arm(fun_info@, flavor));
    out
}

/// The proxy method of one method.
pub fn gen_remote_stub(fun_info: &FunInfo) -> (stub: String)
    ensures
        stub@ == remote_stub(fun_info@),
{
    let names = join(&gen_arg_names(fun_info), ", ");
    let decls = join_strings(&gen_arg_decls(fun_info), ", ");
    let mut out = String::new();
    out.append("pub fn ");
    out.append(fun_info.name.as_str());
    out.append("(&mut self, ");
    out.append(decls.as_str());
    out.append(") { let rpc_id: rcall::RpcId = ");
    append_id_literal(&mut out, fun_info.id);
    out.append("; let packet = rcall::pack!(rpc_id, ");
    out.append(names.as_str());
    out.append("); self.sender.send(packet); }");
    assert(out@ =~= remote_stub(fun_info@));
    out
}

/// The dispatch cases of a method table, one for each method, in order.
pub fn gen_match_expr(fun_infos: &Vec<FunInfo>, flavor: DispatchFlavor) -> (arms: Vec<String>)
    ensures
        string_texts(arms@) == match_arms(table_view(fun_infos@), flavor),
{
    let mut match_exprs: Vec<String> = Vec::new();
    let mut i: usize = 0;
    while i < fun_infos.len()
        invariant
            i <= fun_infos.len(),
            match_exprs.len() == i,
            forall|j: int|
                0 <= j < i ==> (#[trigger] match_exprs[j])@ == match_arm(fun_infos[j]@, flavor),
        decreases fun_infos.len() - i,
    {
        match_exprs.push(gen_match_arm(&fun_infos[i], flavor));
        i = i + 1;
    }
    assert(string_texts(match_exprs@) =~= match_arms(table_view(fun_infos@), flavor));
    match_exprs
}

/// The proxy methods of a method table, one for each method, in order.
pub fn gen_remote_fun(fun_infos: &Vec<FunInfo>) -> (stubs: Vec<String>)
    ensures
        string_texts(stubs@) == remote_stubs(table_view(fun_infos@)),
{
    let mut remote_funs: Vec<String> = Vec::new();
    let mut i: usize = 0;
    while i < fun_infos.len()
        invariant
            i <= fun_infos.len(),
            remote_funs.len() == i,
            forall|j: int|
                0 <= j < i ==> (#[trigger] remote_funs[j])@ == remote_stub(fun_infos[j]@),
        decreases fun_infos.len() - i,
    {
        remote_funs.push(gen_remote_stub(&fun_infos[i]));
        i = i + 1;
    }
    assert(string_texts(remote_funs@) =~= remote_stubs(table_view(fun_infos@)));
    remote_funs
}

/// The dispatch table of a method table.
pub fn gen_dispatcher(fun_infos: &Vec<FunInfo>, flavor: DispatchFlavor) -> (out: String)
    ensures
        out@ == dispatcher_text(table_view(fun_infos@), flavor),
{
    let arms = join_strings(&gen_match_expr(fun_infos, flavor), " ");
    let mut out = String::new();
    append_fn_start(&mut out, flavor);
    out.append(
        "_dispatch_rpc(&mut self, rpc_id: i32, mut packet: rcall::packer::Packet) { match rpc_id { ",
    );
    out.append(arms.as_str());
    out.append(" _ => { println!(\"invalid rpc_id: {}\", rpc_id); } } }");
    assert(out@ =~= dispatcher_text(table_view(fun_infos@), flavor));
    out
}

/// The remote proxy of the protocol `name` with the method table `fun_infos`.
pub fn gen_remote(name: &str, fun_infos: &Vec<FunInfo>) -> (out: String)
    ensures
        out@ == remote_text(name@, table_view(fun_infos@)),
{
    let stubs = join_strings(&gen_remote_fun(fun_infos), " ");
    let mut out = String::new();
    out.append("pub struct ");
    out.append(name);
    out.append("_Remote<T: rcall::Sender> { sender: T } impl<T: rcall::Sender> ");
    out.append(name);
    out.append("_Remote<T> { pub fn new(sender: T) -> Self { ");
    out.append(name);
    out.append("_Remote { sender } } pub fn close(&mut self) { self.sender.close(); } ");
    out.append(stubs.as_str());
    out.append(" }");
    assert(out@ =~= remote_text(name@, table_view(fun_infos@)));
    out
}

/// The entry point of a dispatcher for the struct `input`.
pub fn derive_dispatcher(input: &ItemStruct, flavor: DispatchFlavor) -> (out: String)
    ensures
        out@ == entry_text(
            input.ident@,
            input.impl_generics@,
            input.type_generics@,
            input.where_clause@,
            flavor,
        ),
{
    let mut out = String::new();
    out.append("impl ");
    out.append(input.impl_generics.as_str());
    out.append(" rcall::RpcDispatcher for ");
    out.append(input.ident.as_str());
    out.append(" ");
    out.append(input.type_generics.as_str());
    out.append(" ");
    out.append(input.where_clause.as_str());
    out.append(" { ");
    append_fn_start(&mut out, flavor);
    out.append(
        "dispatch_rpc(&mut self, mut packet: rcall::Packet) { use rcall::UnpackFrom; if let Some(rpc_id) = <rcall::RpcId>::unpack_from(&mut packet) { self._dispatch_rpc(rpc_id, packet)",
    );
    append_call_end(&mut out, flavor);
    out.append(" } else { println!(\"invalid rpc_id!\"); } } }");
    assert(out@ =~= entry_text(
        input.ident@,
        input.impl_generics@,
        input.type_generics@,
        input.where_clause@,
        flavor,
    ));
    out
}

/// Generates the dispatch table and the remote proxy of the protocol `name`
/// from its method table: ids are assigned to the methods that declare none,
/// and the two texts are built from the table that results. Nothing is
/// generated where the ids do not stand.
pub fn expand_table(name: &str, fun_infos: Vec<FunInfo>, flavor: DispatchFlavor) -> (r: Result<
    Expansion,
    GenError,
>)
    ensures
        is_expansion(r, table_outcome(name@, table_view(fun_infos@), flavor)),
{
    let mut fun_infos = fun_infos;
    let ghost infos = table_view(fun_infos@);
    assert(table_ids(fun_infos@) =~= view_ids(infos));
    match setup_rpc_id(&mut fun_infos) {
        Ok(()) => {},
        Err(e) => {
            return Err(e);
        },
    }
    proof {
        let ids = setup_outcome(view_ids(infos))->Ok_0;
        assert(ids.len() == infos.len());
        assert forall|k: int| 0 <= k < infos.len() implies #[trigger] table_view(fun_infos@)[k]
            == with_ids(infos, ids)[k] by {
            assert(table_ids(fun_infos@)[k] == ids[k]);
            assert(fun_infos@[k].name@ == infos[k].name);
            assert(fun_infos@[k]@.args == infos[k].args);
        }
        assert(table_view(fun_infos@) =~= with_ids(infos, ids));
    }
    let dispatcher = gen_dispatcher(&fun_infos, flavor);
    let remote = gen_remote(name, &fun_infos);
    Ok(Expansion { dispatcher, remote })
}

/// Generates the dispatch table and the remote proxy of a protocol.
///
/// The methods of the trait are read in source order and [`expand_table`]
/// does the rest. Nothing is generated where a method cannot be read, which
/// gives the error of the first such method, or else where the ids do not
/// stand, which gives the error of id assignment. Where every attribute with
/// delimited tokens holds plain decimal digits, the outcome is fixed by the
/// trait; of other attribute texts the parser decides.
pub fn expand_protocol(annotated_item: &ItemTrait, flavor: DispatchFlavor) -> (r: Result<
    Expansion,
    GenError,
>)
    ensures
        exists|numbers: Seq<Seq<Option<i32>>>| #[trigger]
            numbers_fit(annotated_item.items@, numbers) && is_expansion(
                r,
                protocol_outcome(*annotated_item, numbers, flavor),
            ),
        all_plain(annotated_item.items@) ==> is_expansion(
            r,
            protocol_outcome(*annotated_item, plain_numbers(annotated_item.items@), flavor),
        ),
{
    let parsed = parse_fun_items(&annotated_item.items);
    let ghost numbers = choose|numbers: Seq<Seq<Option<i32>>>| #[trigger]
        numbers_fit(annotated_item.items@, numbers) && is_table(
            parsed,
            fun_infos_of(annotated_item.items@, numbers),
        );
    let fun_infos: Vec<FunInfo> = match parsed {
        Ok(fun_infos) => fun_infos,
        Err(e) => {
            assert(is_expansion(
                Err::<Expansion, GenError>(e),
                protocol_outcome(*annotated_item, numbers, flavor),
            ));
            return Err(e);
        },
    };
    let r = expand_table(annotated_item.ident.as_str(), fun_infos, flavor);
    assert(is_expansion(r, protocol_outcome(*annotated_item, numbers, flavor)));
    r
}

/// Generates, for the trait under the attribute, the dispatch table whose
/// cases call the methods as plain calls, and the remote proxy. The
/// attribute's own arguments play no part.
pub fn protocol<A>(_input_item: A, annotated_item: &ItemTrait) -> (r: Result<Expansion, GenError>)
    ensures
        exists|numbers: Seq<Seq<Option<i32>>>| #[trigger]
            numbers_fit(annotated_item.items@, numbers) && is_expansion(
                r,
                protocol_outcome(*annotated_item, numbers, DispatchFlavor::Synchronous),
            ),
        all_plain(annotated_item.items@) ==> is_expansion(
            r,
            protocol_outcome(
                *annotated_item,
                plain_numbers(annotated_item.items@),
                DispatchFlavor::Synchronous,
            ),
        ),
{
    expand_protocol(annotated_item, DispatchFlavor::Synchronous)
}

/// Generates, for the struct under the derive, the entry point that passes a
/// packet on to the dispatch table with a plain call.
pub fn services_derive(input: &ItemStruct) -> (out: String)
    ensures
        out@ == entry_text(
            input.ident@,
            input.impl_generics@,
            input.type_generics@,
            input.where_clause@,
            DispatchFlavor::Synchronous,
        ),
{
    derive_dispatcher(input, DispatchFlavor::Synchronous)
}

/// Marks a method with its operation id. The method itself stays as it is
/// written: the id is read when the protocol is generated.
pub fn rpc<A, T>(_input_item: A, annotated_item: T) -> (out: T)
    ensures
        out == annotated_item,
{
    annotated_item
}

/// Marks the `impl` of a protocol, which stays as it is written.
pub fn protocol_impl<A, T>(_input_item: A, annotated_item: T) -> (out: T)
    ensures
        out == annotated_item,
{
    annotated_item
}

/// The type of the remote proxy that a client holds to call the protocol
/// `input`, which the server implements: the proxy over the client's sender.
pub fn client_to_remote_type(input: &str) -> (out: String)
    ensures
        out@ == input@ + "_Remote<rcall::ClientSender>"@,
{
    let mut out = String::new();
    out.append(input);
    out.append("_Remote<rcall::ClientSender>");
    assert(out@ =~= input@ + "_Remote<rcall::ClientSender>"@);
    out
}

/// The type of the remote proxy that a server holds to call the protocol
/// `input`, which the client implements: the proxy over the server's sender.
pub fn server_to_remote_type(input: &str) -> (out: String)
    ensures
        out@ == input@ + "_Remote<rcall::ServerSender>"@,
{
    let mut out = String::new();
    out.append(input);
    out.append("_Remote<rcall::ServerSender>");
    assert(out@ =~= input@ + "_Remote<rcall::ServerSender>"@);
    out
}

} // verus!
