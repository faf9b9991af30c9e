use quote::ToTokens;
use rcall_codegen::{
    protocol, route, services_derive, FnArg, GenError, ItemStruct, ItemTrait, Meta, Pat, Routing,
    TraitItem, TraitItemFn,
};

fn meta_of(meta: &syn::Meta) -> Meta {
    match meta {
        syn::Meta::Path(_) => Meta::Path,
        syn::Meta::List(list) => Meta::List { tokens: list.tokens.to_string() },
        syn::Meta::NameValue(_) => Meta::NameValue,
    }
}

fn arg_of(arg: &syn::FnArg) -> FnArg {
    match arg {
        syn::FnArg::Receiver(_) => FnArg::Receiver,
        syn::FnArg::Typed(typed) => FnArg::Typed {
            pat: match &*typed.pat {
                syn::Pat::Ident(ident) => Pat::Ident { ident: ident.ident.to_string() },
                _ => Pat::Other,
            },
            ty: typed.ty.to_token_stream().to_string(),
        },
    }
}

fn item_of(item: &syn::TraitItem) -> TraitItem {
    match item {
        syn::TraitItem::Fn(item) => TraitItem::Fn(TraitItemFn {
            attrs: item.attrs.iter().map(|attr| meta_of(&attr.meta)).collect(),
            ident: item.sig.ident.to_string(),
            inputs: item.sig.inputs.iter().map(arg_of).collect(),
        }),
        _ => TraitItem::Other,
    }
}

fn read_trait(source: &str) -> (syn::ItemTrait, ItemTrait) {
    let item = syn::parse_str::<syn::ItemTrait>(source).expect("the source is a trait");
    let model = ItemTrait {
        ident: item.ident.to_string(),
        items: item.items.iter().map(item_of).collect(),
    };
    (item, model)
}

const SERVER_PROTOCOL: &str = "
    trait ServerProtocol {
        const VERSION: u32 = 1;
        #[rcall::rpc(20)]
        fn hello_from_client(&self, msg: &str);
        /// Logs a user in.
        #[inline]
        fn login(&self, name: &str, password: &str);
        #[rcall::rpc(11)]
        fn logout(&self);
        fn upload(&self, name: String, data: Vec<u8>);
    }";

#[test]
fn trait_source_is_read_into_the_model() {
    let (_, model) = read_trait(SERVER_PROTOCOL);
    assert_eq!(model.ident, "ServerProtocol");
    assert_eq!(model.items.len(), 5);
    assert_eq!(model.items[0], TraitItem::Other);
    assert_eq!(
        model.items[1],
        TraitItem::Fn(TraitItemFn {
            attrs: vec![Meta::List { tokens: "20".to_string() }],
            ident: "hello_from_client".to_string(),
            inputs: vec![
                FnArg::Receiver,
                FnArg::Typed {
                    pat: Pat::Ident { ident: "msg".to_string() },
                    ty: "& str".to_string()
                },
            ],
        })
    );
}

#[test]
fn generated_dispatcher_joins_the_trait() {
    let (mut item, model) = read_trait(SERVER_PROTOCOL);
    let expansion = protocol("", &model).expect("the protocol stands");
    let dispatcher =
        syn::parse_str::<syn::TraitItem>(&expansion.dispatcher).expect("the table is a trait item");
    item.items.push(dispatcher);
    let arms = match item.items.last() {
        Some(syn::TraitItem::Fn(table)) => {
            assert_eq!(table.sig.ident.to_string(), "_dispatch_rpc");
            let body = table.default.as_ref().expect("the table has a body");
            match &body.stmts[0] {
                syn::Stmt::Expr(syn::Expr::Match(table), _) => table.arms.clone(),
                _ => panic!("the table is a match"),
            }
        },
        _ => panic!("the table is a method"),
    };
    let patterns: Vec<String> =
        arms.iter().map(|arm| arm.pat.to_token_stream().to_string()).collect();
    assert_eq!(patterns, vec!["20i32", "12i32", "11i32", "13i32", "_"]);
}

#[test]
fn generated_proxy_has_one_method_for_each_operation() {
    let (_, model) = read_trait(SERVER_PROTOCOL);
    let expansion = protocol("", &model).expect("the protocol stands");
    let file = syn::parse_str::<syn::File>(&expansion.remote).expect("the proxy is Rust");
    let methods: Vec<String> = match &file.items[1] {
        syn::Item::Impl(item) => item
            .items
            .iter()
            .map(|member| match member {
                syn::ImplItem::Fn(method) => method.sig.to_token_stream().to_string(),
                _ => panic!("the proxy has methods only"),
            })
            .collect(),
        _ => panic!("the proxy ends with its impl"),
    };
    assert_eq!(
        methods,
        vec![
            "fn new (sender : T) -> Self",
            "fn close (& mut self)",
            "fn hello_from_client (& mut self , msg : & str)",
            "fn login (& mut self , name : & str , password : & str)",
            "fn logout (& mut self ,)",
            "fn upload (& mut self , name : String , data : Vec < u8 >)",
        ]
    );
}

#[test]
fn chat_from_source() {
    let (_, model) = read_trait(
        "trait Chat { fn send_text(&self, body: String); #[rcall::rpc(11)] fn ping(&self); }",
    );
    let fun_infos = rcall_codegen::parse_fun_items(&model.items).expect("the methods are read");
    let mut fun_infos = fun_infos;
    assert_eq!(rcall_codegen::setup_rpc_id(&mut fun_infos), Ok(()));
    assert_eq!(fun_infos[0].name, "send_text");
    assert_eq!(fun_infos[0].id, 12);
    assert_eq!(fun_infos[1].name, "ping");
    assert_eq!(fun_infos[1].id, 11);
    assert_eq!(route(&fun_infos, Some(11)), Routing::Case(1));
    assert_eq!(route(&fun_infos, Some(12)), Routing::Case(0));
    assert_eq!(route(&fun_infos, Some(99)), Routing::UnknownOperation(99));
}

#[test]
fn name_value_attribute_declares_no_id() {
    let (_, model) = read_trait("trait Chat { #[id = 11] fn ping(&self); }");
    let fun_infos = rcall_codegen::parse_fun_items(&model.items).expect("the methods are read");
    assert_eq!(fun_infos[0].id, 0);
}

#[test]
fn low_id_in_source_stops_generation() {
    let (_, model) = read_trait("trait Chat { #[rcall::rpc(3)] fn ping(&self); }");
    assert_eq!(protocol("", &model), Err(GenError::InvalidRpcId(3)));
}

#[test]
fn wildcard_parameter_in_source_stops_generation() {
    let (_, model) = read_trait("trait Chat { fn ping(&self, _: u8); }");
    assert_eq!(protocol("", &model), Err(GenError::MalformedParameter));
}

#[test]
fn entry_point_from_source() {
    let item = syn::parse_str::<syn::ItemStruct>(
        "struct Services<'a, T: Clone = u8> where T: Send { inner: &'a T }",
    )
    .expect("the source is a struct");
    let (impl_generics, type_generics, where_clause) = item.generics.split_for_impl();
    let input = ItemStruct {
        ident: item.ident.to_string(),
        impl_generics: impl_generics.to_token_stream().to_string(),
        type_generics: type_generics.to_token_stream().to_string(),
        where_clause: where_clause.to_token_stream().to_string(),
    };
    let generated = syn::parse_str::<syn::ItemImpl>(&services_derive(&input))
        .expect("the entry point is an impl");
    assert_eq!(generated.self_ty.to_token_stream().to_string(), "Services < 'a , T >");
    assert_eq!(
        generated.generics.params.to_token_stream().to_string(),
        "'a , T : Clone"
    );
    assert_eq!(generated.items.len(), 1);
}
