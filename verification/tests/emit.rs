use std::str::FromStr;

use proc_macro2::TokenStream;
use rcall_codegen::emit::{
    gen_arg_names, gen_arg_types, gen_dispatcher, gen_match_arm, gen_match_expr, gen_remote,
    gen_remote_fun, gen_remote_stub,
};
use rcall_codegen::{
    client_to_remote_type, derive_dispatcher, expand_protocol, expand_table, protocol,
    protocol_impl, rpc,
    server_to_remote_type, services_derive, DispatchFlavor, FnArg, FunInfo, GenError, ItemStruct,
    ItemTrait, Meta, Pat, TraitItem, TraitItemFn,
};

fn leaves(stream: TokenStream, out: &mut Vec<String>) {
    for tree in stream {
        match tree {
            proc_macro2::TokenTree::Group(group) => {
                out.push(format!("open {:?}", group.delimiter()));
                leaves(group.stream(), out);
                out.push(format!("close {:?}", group.delimiter()));
            },
            proc_macro2::TokenTree::Punct(punct) => out.push(punct.as_char().to_string()),
            other => out.push(other.to_string()),
        }
    }
}

fn tokens(text: &str) -> Vec<String> {
    let mut out = Vec::new();
    leaves(TokenStream::from_str(text).expect("the text lexes"), &mut out);
    out
}

fn info(name: &str, id: i32, args: &[(&str, &str)]) -> FunInfo {
    FunInfo::new(
        name.to_string(),
        id,
        args.iter().map(|(n, t)| (n.to_string(), t.to_string())).collect(),
    )
}

fn binding(name: &str, ty: &str) -> FnArg {
    FnArg::Typed { pat: Pat::Ident { ident: name.to_string() }, ty: ty.to_string() }
}

fn chat() -> ItemTrait {
    ItemTrait {
        ident: "Chat".to_string(),
        items: vec![
            TraitItem::Fn(TraitItemFn {
                attrs: vec![],
                ident: "send_text".to_string(),
                inputs: vec![FnArg::Receiver, binding("body", "String")],
            }),
            TraitItem::Fn(TraitItemFn {
                attrs: vec![Meta::List { tokens: "11".to_string() }],
                ident: "ping".to_string(),
                inputs: vec![FnArg::Receiver],
            }),
        ],
    }
}

const SEND_TEXT_ARM: &str = "12i32 => { if let Some((body)) = rcall::unpack!(packet, String) { self.send_text(body); } else { println!(\"error in calling rpc: {}:{}\", rpc_id, stringify!(send_text)); } }";

const PING_ARM: &str = "11i32 => { if let Some(()) = rcall::unpack!(packet, ) { self.ping(); } else { println!(\"error in calling rpc: {}:{}\", rpc_id, stringify!(ping)); } }";

const SEND_TEXT_STUB: &str = "pub fn send_text(&mut self, body: String) { let rpc_id: rcall::RpcId = 12i32; let packet = rcall::pack!(rpc_id, body); self.sender.send(packet); }";

const PING_STUB: &str = "pub fn ping(&mut self, ) { let rpc_id: rcall::RpcId = 11i32; let packet = rcall::pack!(rpc_id, ); self.sender.send(packet); }";

#[test]
fn names_and_types_in_call_order() {
    let login = info("login", 12, &[("name", "& str"), ("password", "String")]);
    assert_eq!(gen_arg_names(&login), vec!["name", "password"]);
    assert_eq!(gen_arg_types(&login), vec!["& str", "String"]);
    let ping = info("ping", 11, &[]);
    assert!(gen_arg_names(&ping).is_empty());
    assert!(gen_arg_types(&ping).is_empty());
}

#[test]
fn match_arm_of_a_method_with_one_parameter() {
    let arm = gen_match_arm(&info("send_text", 12, &[("body", "String")]), DispatchFlavor::Synchronous);
    assert_eq!(arm, SEND_TEXT_ARM);
}

#[test]
fn match_arm_of_a_method_without_parameters() {
    assert_eq!(gen_match_arm(&info("ping", 11, &[]), DispatchFlavor::Synchronous), PING_ARM);
}

#[test]
fn match_arm_keeps_the_order_of_parameters() {
    let arm = gen_match_arm(
        &info("login", 2000, &[("name", "&str"), ("password", "Vec<u8>")]),
        DispatchFlavor::Synchronous,
    );
    assert_eq!(
        arm,
        "2000i32 => { if let Some((name, password)) = rcall::unpack!(packet, &str, Vec<u8>) { self.login(name, password); } else { println!(\"error in calling rpc: {}:{}\", rpc_id, stringify!(login)); } }"
    );
}

#[test]
fn match_arm_of_an_id_that_was_never_set_up() {
    let unset = gen_match_arm(&info("ping", 0, &[]), DispatchFlavor::Synchronous);
    assert!(unset.starts_with("0i32 => {"));
    let negative = gen_match_arm(&info("ping", -5, &[]), DispatchFlavor::Synchronous);
    assert!(negative.starts_with("-5i32 => {"));
    assert_eq!(tokens(&negative)[..2], ["-".to_string(), "5i32".to_string()]);
}

#[test]
fn id_is_written_as_a_suffixed_literal() {
    for id in [0, 9, 10, 11, 99, 100, 4096, 65535, 1000000, i32::MAX] {
        let literal = proc_macro2::Literal::i32_suffixed(id).to_string();
        let arm = gen_match_arm(&info("m", id, &[]), DispatchFlavor::Synchronous);
        assert!(arm.starts_with(&format!("{} => ", literal)));
        let stub = gen_remote_stub(&info("m", id, &[]));
        assert!(stub.contains(&format!("let rpc_id: rcall::RpcId = {};", literal)));
        assert_eq!(quote::ToTokens::to_token_stream(&id).to_string(), literal);
    }
}

#[test]
fn match_arm_that_suspends_awaits_the_method() {
    let arm = gen_match_arm(&info("ping", 11, &[]), DispatchFlavor::Suspending);
    assert_eq!(
        arm,
        "11i32 => { if let Some(()) = rcall::unpack!(packet, ) { self.ping().await; } else { println!(\"error in calling rpc: {}:{}\", rpc_id, stringify!(ping)); } }"
    );
}

#[test]
fn match_arm_has_the_tokens_of_its_pattern() {
    let arm = gen_match_arm(
        &info("login", 15, &[("name", "& str"), ("password", "& str")]),
        DispatchFlavor::Synchronous,
    );
    let pattern = "
        15i32 => {
            if let Some((name, password)) = rcall::unpack!(packet, &str, &str) {
                self.login(name, password);
            } else {
                println!(\"error in calling rpc: {}:{}\", rpc_id, stringify!(login));
            }
        }";
    assert_eq!(tokens(&arm), tokens(pattern));
}

#[test]
fn stub_of_a_method() {
    assert_eq!(gen_remote_stub(&info("send_text", 12, &[("body", "String")])), SEND_TEXT_STUB);
    assert_eq!(gen_remote_stub(&info("ping", 11, &[])), PING_STUB);
}

#[test]
fn stub_has_the_tokens_of_its_pattern() {
    let stub = gen_remote_stub(&info("login", 15, &[("name", "& str"), ("password", "& str")]));
    let pattern = "
        pub fn login(&mut self, name: &str, password: &str) {
            let rpc_id: rcall::RpcId = 15i32;
            let packet = rcall::pack!(rpc_id, name, password);
            self.sender.send(packet);
        }";
    assert_eq!(tokens(&stub), tokens(pattern));
    assert!(syn::parse_str::<syn::ImplItemFn>(&stub).is_ok());
}

#[test]
fn arms_and_stubs_follow_the_table() {
    let fun_infos = vec![info("send_text", 12, &[("body", "String")]), info("ping", 11, &[])];
    assert_eq!(
        gen_match_expr(&fun_infos, DispatchFlavor::Synchronous),
        vec![SEND_TEXT_ARM, PING_ARM]
    );
    assert_eq!(gen_remote_fun(&fun_infos), vec![SEND_TEXT_STUB, PING_STUB]);
    assert!(gen_match_expr(&Vec::new(), DispatchFlavor::Synchronous).is_empty());
    assert!(gen_remote_fun(&Vec::new()).is_empty());
}

#[test]
fn dispatcher_of_a_table() {
    let fun_infos = vec![info("send_text", 12, &[("body", "String")]), info("ping", 11, &[])];
    let text = gen_dispatcher(&fun_infos, DispatchFlavor::Synchronous);
    assert_eq!(
        text,
        format!(
            "fn _dispatch_rpc(&mut self, rpc_id: i32, mut packet: rcall::packer::Packet) {{ match rpc_id {{ {} {} _ => {{ println!(\"invalid rpc_id: {{}}\", rpc_id); }} }} }}",
            SEND_TEXT_ARM, PING_ARM
        )
    );
    assert!(syn::parse_str::<syn::TraitItem>(&text).is_ok());
}

#[test]
fn dispatcher_of_an_empty_table_has_the_default_case_only() {
    let text = gen_dispatcher(&Vec::new(), DispatchFlavor::Synchronous);
    let pattern = "
        fn _dispatch_rpc(&mut self, rpc_id: i32, mut packet: rcall::packer::Packet) {
            match rpc_id {
                _ => {
                    println!(\"invalid rpc_id: {}\", rpc_id);
                }
            }
        }";
    assert_eq!(tokens(&text), tokens(pattern));
    assert!(syn::parse_str::<syn::TraitItem>(&text).is_ok());
}

#[test]
fn dispatcher_that_suspends_is_an_async_fn() {
    let text = gen_dispatcher(&vec![info("ping", 11, &[])], DispatchFlavor::Suspending);
    let pattern = "
        async fn _dispatch_rpc(&mut self, rpc_id: i32, mut packet: rcall::packer::Packet) {
            match rpc_id {
                11i32 => {
                    if let Some(()) = rcall::unpack!(packet,) {
                        self.ping().await;
                    } else {
                        println!(\"error in calling rpc: {}:{}\", rpc_id, stringify!(ping));
                    }
                }
                _ => {
                    println!(\"invalid rpc_id: {}\", rpc_id);
                }
            }
        }";
    assert_eq!(tokens(&text), tokens(pattern));
    assert!(syn::parse_str::<syn::TraitItem>(&text).is_ok());
}

#[test]
fn remote_of_a_table() {
    let fun_infos = vec![info("send_text", 12, &[("body", "String")]), info("ping", 11, &[])];
    let text = gen_remote("Chat", &fun_infos);
    assert_eq!(
        text,
        format!(
            "pub struct Chat_Remote<T: rcall::Sender> {{ sender: T }} impl<T: rcall::Sender> Chat_Remote<T> {{ pub fn new(sender: T) -> Self {{ Chat_Remote {{ sender }} }} pub fn close(&mut self) {{ self.sender.close(); }} {} {} }}",
            SEND_TEXT_STUB, PING_STUB
        )
    );
    let file = syn::parse_str::<syn::File>(&text).expect("the proxy is Rust");
    assert_eq!(file.items.len(), 2);
}

#[test]
fn remote_has_the_tokens_of_its_pattern() {
    let text = gen_remote("ServerProtocol", &vec![info("hello", 11, &[("msg", "String")])]);
    let pattern = "
        pub struct ServerProtocol_Remote<T: rcall::Sender> {
            sender: T
        }

        impl<T: rcall::Sender> ServerProtocol_Remote<T> {
            pub fn new(sender: T) -> Self {
                ServerProtocol_Remote {
                    sender
                }
            }

            pub fn close(&mut self) {
                self.sender.close();
            }

            pub fn hello(&mut self, msg: String) {
                let rpc_id: rcall::RpcId = 11i32;
                let packet = rcall::pack!(rpc_id, msg);
                self.sender.send(packet);
            }
        }";
    assert_eq!(tokens(&text), tokens(pattern));
}

#[test]
fn chat_protocol() {
    let expansion = protocol("", &chat()).expect("the protocol stands");
    assert_eq!(
        expansion.dispatcher,
        format!(
            "fn _dispatch_rpc(&mut self, rpc_id: i32, mut packet: rcall::packer::Packet) {{ match rpc_id {{ {} {} _ => {{ println!(\"invalid rpc_id: {{}}\", rpc_id); }} }} }}",
            SEND_TEXT_ARM, PING_ARM
        )
    );
    assert_eq!(
        expansion.remote,
        format!(
            "pub struct Chat_Remote<T: rcall::Sender> {{ sender: T }} impl<T: rcall::Sender> Chat_Remote<T> {{ pub fn new(sender: T) -> Self {{ Chat_Remote {{ sender }} }} pub fn close(&mut self) {{ self.sender.close(); }} {} {} }}",
            SEND_TEXT_STUB, PING_STUB
        )
    );
}

#[test]
fn chat_table() {
    let fun_infos = vec![info("send_text", 0, &[("body", "String")]), info("ping", 11, &[])];
    let expansion =
        expand_table("Chat", fun_infos, DispatchFlavor::Synchronous).expect("the table stands");
    assert_eq!(Ok(expansion), protocol("", &chat()));
}

#[test]
fn table_assigns_ids_before_it_writes() {
    let fun_infos = vec![info("a", 0, &[]), info("b", 11, &[]), info("c", 0, &[("x", "u8")])];
    let expansion =
        expand_table("P", fun_infos, DispatchFlavor::Synchronous).expect("the table stands");
    let finished = vec![info("a", 12, &[]), info("b", 11, &[]), info("c", 13, &[("x", "u8")])];
    assert_eq!(expansion.dispatcher, gen_dispatcher(&finished, DispatchFlavor::Synchronous));
    assert_eq!(expansion.remote, gen_remote("P", &finished));
}

#[test]
fn table_with_faulty_ids_generates_nothing() {
    let low = vec![info("a", 0, &[]), info("b", 3, &[])];
    assert_eq!(
        expand_table("P", low, DispatchFlavor::Synchronous),
        Err(GenError::InvalidRpcId(3))
    );
    let repeated = vec![info("a", 12, &[]), info("b", 12, &[])];
    assert_eq!(
        expand_table("P", repeated, DispatchFlavor::Suspending),
        Err(GenError::DuplicateRpcId(12))
    );
}

#[test]
fn attribute_arguments_play_no_part() {
    assert_eq!(protocol("anything at all", &chat()), protocol((), &chat()));
}

#[test]
fn protocol_is_the_synchronous_expansion() {
    assert_eq!(protocol("", &chat()), expand_protocol(&chat(), DispatchFlavor::Synchronous));
    let suspending = expand_protocol(&chat(), DispatchFlavor::Suspending).expect("it stands");
    assert!(suspending.dispatcher.starts_with("async fn _dispatch_rpc("));
    assert!(suspending.dispatcher.contains("self.send_text(body).await;"));
    assert_eq!(suspending.remote, protocol("", &chat()).expect("it stands").remote);
}

#[test]
fn protocol_with_a_low_id_generates_nothing() {
    let mut item = chat();
    item.items.push(TraitItem::Fn(TraitItemFn {
        attrs: vec![Meta::List { tokens: "3".to_string() }],
        ident: "low".to_string(),
        inputs: vec![FnArg::Receiver],
    }));
    assert_eq!(protocol("", &item), Err(GenError::InvalidRpcId(3)));
}

#[test]
fn protocol_with_a_repeated_id_generates_nothing() {
    let mut item = chat();
    item.items.push(TraitItem::Fn(TraitItemFn {
        attrs: vec![Meta::List { tokens: "0xB".to_string() }],
        ident: "pong".to_string(),
        inputs: vec![FnArg::Receiver],
    }));
    assert_eq!(protocol("", &item), Err(GenError::DuplicateRpcId(11)));
}

#[test]
fn protocol_with_a_pattern_parameter_generates_nothing() {
    let mut item = chat();
    item.items.push(TraitItem::Fn(TraitItemFn {
        attrs: vec![],
        ident: "pair".to_string(),
        inputs: vec![FnArg::Receiver, FnArg::Typed { pat: Pat::Other, ty: "(u8, u8)".to_string() }],
    }));
    assert_eq!(protocol("", &item), Err(GenError::MalformedParameter));
}

#[test]
fn protocol_without_methods() {
    let item = ItemTrait { ident: "Idle".to_string(), items: vec![TraitItem::Other] };
    let expansion = protocol("", &item).expect("the protocol stands");
    assert_eq!(
        expansion.dispatcher,
        "fn _dispatch_rpc(&mut self, rpc_id: i32, mut packet: rcall::packer::Packet) { match rpc_id {  _ => { println!(\"invalid rpc_id: {}\", rpc_id); } } }"
    );
    assert_eq!(
        expansion.remote,
        "pub struct Idle_Remote<T: rcall::Sender> { sender: T } impl<T: rcall::Sender> Idle_Remote<T> { pub fn new(sender: T) -> Self { Idle_Remote { sender } } pub fn close(&mut self) { self.sender.close(); }  }"
    );
}

#[test]
fn entry_point_of_a_plain_struct() {
    let input = ItemStruct {
        ident: "Services".to_string(),
        impl_generics: String::new(),
        type_generics: String::new(),
        where_clause: String::new(),
    };
    let text = services_derive(&input);
    assert_eq!(
        text,
        "impl  rcall::RpcDispatcher for Services   { fn dispatch_rpc(&mut self, mut packet: rcall::Packet) { use rcall::UnpackFrom; if let Some(rpc_id) = <rcall::RpcId>::unpack_from(&mut packet) { self._dispatch_rpc(rpc_id, packet); } else { println!(\"invalid rpc_id!\"); } } }"
    );
    assert!(syn::parse_str::<syn::ItemImpl>(&text).is_ok());
}

#[test]
fn entry_point_of_a_generic_struct() {
    let input = ItemStruct {
        ident: "Services".to_string(),
        impl_generics: "< 'a , T : Clone >".to_string(),
        type_generics: "< 'a , T >".to_string(),
        where_clause: "where T : Send".to_string(),
    };
    let text = services_derive(&input);
    let pattern = "
        impl<'a, T: Clone> rcall::RpcDispatcher for Services<'a, T> where T: Send {
            fn dispatch_rpc(&mut self, mut packet: rcall::Packet) {
                use rcall::UnpackFrom;
                if let Some(rpc_id) = <rcall::RpcId>::unpack_from(&mut packet) {
                    self._dispatch_rpc(rpc_id, packet);
                }
                else {
                    println!(\"invalid rpc_id!\");
                }
            }
        }";
    assert_eq!(tokens(&text), tokens(pattern));
    assert!(syn::parse_str::<syn::ItemImpl>(&text).is_ok());
    assert_eq!(text, derive_dispatcher(&input, DispatchFlavor::Synchronous));
}

#[test]
fn entry_point_that_suspends_awaits_the_table() {
    let input = ItemStruct {
        ident: "Services".to_string(),
        impl_generics: String::new(),
        type_generics: String::new(),
        where_clause: String::new(),
    };
    let text = derive_dispatcher(&input, DispatchFlavor::Suspending);
    let pattern = "
        impl rcall::RpcDispatcher for Services {
            async fn dispatch_rpc(&mut self, mut packet: rcall::Packet) {
                use rcall::UnpackFrom;
                if let Some(rpc_id) = <rcall::RpcId>::unpack_from(&mut packet) {
                    self._dispatch_rpc(rpc_id, packet).await;
                }
                else {
                    println!(\"invalid rpc_id!\");
                }
            }
        }";
    assert_eq!(tokens(&text), tokens(pattern));
}

#[test]
fn remote_type_names() {
    assert_eq!(
        client_to_remote_type("ImplInServer"),
        "ImplInServer_Remote<rcall::ClientSender>"
    );
    assert_eq!(
        server_to_remote_type("ImplInClientProtocol"),
        "ImplInClientProtocol_Remote<rcall::ServerSender>"
    );
    assert_eq!(
        client_to_remote_type("protocols :: ImplInServer"),
        "protocols :: ImplInServer_Remote<rcall::ClientSender>"
    );
    assert!(syn::parse_str::<syn::Type>(&client_to_remote_type("protocols :: ImplInServer")).is_ok());
    assert_eq!(server_to_remote_type(""), "_Remote<rcall::ServerSender>");
}

#[test]
fn remote_type_names_the_struct_of_the_proxy() {
    let text = gen_remote("Chat", &Vec::new());
    let file = syn::parse_str::<syn::File>(&text).expect("the proxy is Rust");
    let name = match &file.items[0] {
        syn::Item::Struct(item) => item.ident.to_string(),
        _ => panic!("the proxy begins with its struct"),
    };
    assert!(client_to_remote_type("Chat").starts_with(&format!("{}<", name)));
    assert!(server_to_remote_type("Chat").starts_with(&format!("{}<", name)));
}

#[test]
fn marker_attributes_hand_the_item_back() {
    assert_eq!(rpc("11", "fn ping(&self);".to_string()), "fn ping(&self);");
    assert_eq!(protocol_impl((), vec![1u8, 2, 3]), vec![1u8, 2, 3]);
    let stream = TokenStream::from_str("impl Chat for Server {}").expect("the text lexes");
    assert_eq!(
        protocol_impl(TokenStream::new(), stream.clone()).to_string(),
        stream.to_string()
    );
}
