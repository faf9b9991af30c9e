//! The values that generation works on: the syntax of an annotated trait as far
//! as generation reads it, the method table built from it, and the errors that
//! stop generation.

use vstd::prelude::*;
use vstd::string::*;
use crate::text::{append_decimal, decimal};

verus! {

/// Explicit operation ids must lie at or above this value. The ids below it are
/// kept for the framework, and automatic assignment starts just above it.
pub const RPC_ID_THRESHOLD: i32 = 10;

/// Why no code is generated for a definition.
#[derive(Debug, Clone, Copy, PartialEq, Eq, Structural)]
pub enum GenError {
    /// A method declares this id, which is neither zero nor at or above the threshold.
    InvalidRpcId(i32),
    /// Two methods declare this same explicit id.
    DuplicateRpcId(i32),
    /// A parameter after the receiver is not a plain `name: type` binding.
    MalformedParameter,
    /// An automatic method is left for which no id above the threshold is free.
    IdsExhausted,
}

impl GenError {
    /// The error in words.
    pub open spec fn message_text(self) -> Seq<char> {
        match self {
            GenError::InvalidRpcId(id) => "invalid rpc_id: "@ + decimal(id as int),
            GenError::DuplicateRpcId(id) => "duplicate rpc_id: "@ + decimal(id as int),
            GenError::MalformedParameter => "unsupported parameter: expected `name: type`"@,
            GenError::IdsExhausted => "no rpc_id left above the threshold"@,
        }
    }

    /// The error in words.
    pub fn message(&self) -> (out: String)
        ensures
            out@ == self.message_text(),
    {
        let mut out = String::new();
        match self {
            GenError::InvalidRpcId(id) => {
                out.append("invalid rpc_id: ");
                append_decimal(&mut out, *id);
            },
            GenError::DuplicateRpcId(id) => {
                out.append("duplicate rpc_id: ");
                append_decimal(&mut out, *id);
            },
            GenError::MalformedParameter => {
                out.append("unsupported parameter: expected `name: type`");
            },
            GenError::IdsExhausted => {
                out.append("no rpc_id left above the threshold");
            },
        }
        assert(out@ =~= self.message_text());
        out
    }
}

/// How a dispatcher waits for the method that it calls.
#[derive(Debug, Clone, Copy, PartialEq, Eq, Structural)]
pub enum DispatchFlavor {
    /// The method is a plain call that has returned when its case ends.
    Synchronous,
    /// The method may suspend the task that dispatches; its case awaits it to the end.
    Suspending,
}

/// The meta item of an attribute, by its shape.
#[derive(Debug, PartialEq, Eq)]
pub enum Meta {
    /// A bare path, as in `#[inline]`.
    Path,
    /// A path with delimited tokens, as in `#[rpc(12)]`; `tokens` is the text between the delimiters.
    List { tokens: String },
    /// A path with a value, as in `#[id = 12]`.
    NameValue,
}

/// The pattern of a typed parameter.
#[derive(Debug, PartialEq, Eq)]
pub enum Pat {
    /// A plain name.
    Ident { ident: String },
    /// Any other pattern.
    Other,
}

/// One parameter of a method signature.
#[derive(Debug, PartialEq, Eq)]
pub enum FnArg {
    /// `self` in one of its shorthand forms.
    Receiver,
    /// A pattern with a type; `ty` is the text of the type.
    Typed { pat: Pat, ty: String },
}

/// A method declared in a trait.
#[derive(Debug, PartialEq, Eq)]
pub struct TraitItemFn {
    /// The method's attributes, in source order.
    pub attrs: Vec<Meta>,
    /// The method's name.
    pub ident: String,
    /// The parameters, the receiver included, in source order.
    pub inputs: Vec<FnArg>,
}

/// One item of a trait body.
#[derive(Debug, PartialEq, Eq)]
pub enum TraitItem {
    Fn(TraitItemFn),
    /// An associated constant or type, a macro call, or anything else that is no method.
    Other,
}

/// A trait that declares a protocol.
#[derive(Debug, PartialEq, Eq)]
pub struct ItemTrait {
    /// The trait's name.
    pub ident: String,
    /// The items of the body, in source order.
    pub items: Vec<TraitItem>,
}

/// A struct that is to receive a dispatcher; the three generics texts are the
/// ones that an `impl` for the struct is written with.
#[derive(Debug, PartialEq, Eq)]
pub struct ItemStruct {
    /// The struct's name.
    pub ident: String,
    /// What follows `impl`: the generic parameters with their bounds, or nothing.
    pub impl_generics: String,
    /// What follows the struct's name: the generic arguments, or nothing.
    pub type_generics: String,
    /// The `where` clause, or nothing.
    pub where_clause: String,
}

/// One remotely callable method: its name, its operation id (zero while none is
/// assigned) and its parameters after the receiver, each as name and type text,
/// in call order.
#[derive(Debug, PartialEq, Eq)]
pub struct FunInfo {
    pub name: String,
    pub id: i32,
    pub args: Vec<(String, String)>,
}

/// What a [`FunInfo`] holds, as mathematical values.
#[verifier::ext_equal]
pub struct FunInfoView {
    pub name: Seq<char>,
    pub id: i32,
    pub args: Seq<(Seq<char>, Seq<char>)>,
}

/// The name and type texts of a parameter list.
pub open spec fn args_view(args: Seq<(String, String)>) -> Seq<(Seq<char>, Seq<char>)> {
    args.map_values(|p: (String, String)| (p.0@, p.1@))
}

impl View for FunInfo {
    type V = FunInfoView;

    open spec fn view(&self) -> FunInfoView {
        FunInfoView { name: self.name@, id: self.id, args: args_view(self.args@) }
    }
}

/// The views of a method table, in order.
pub open spec fn table_view(fun_infos: Seq<FunInfo>) -> Seq<FunInfoView> {
    fun_infos.map_values(|f: FunInfo| f@)
}

/// The ids of a method table, in order.
pub open spec fn table_ids(fun_infos: Seq<FunInfo>) -> Seq<i32> {
    fun_infos.map_values(|f: FunInfo| f.id)
}

/// What is generated for a protocol, as source text.
#[derive(Debug, PartialEq, Eq)]
pub struct Expansion {
    /// The dispatch table: the method that joins the items of the trait.
    pub dispatcher: String,
    /// The remote proxy: its struct and its `impl`, which follow the trait.
    pub remote: String,
}

/// What an [`Expansion`] reads.
#[verifier::ext_equal]
pub struct ExpansionView {
    pub dispatcher: Seq<char>,
    pub remote: Seq<char>,
}

impl View for Expansion {
    type V = ExpansionView;

    open spec fn view(&self) -> ExpansionView {
        ExpansionView { dispatcher: self.dispatcher@, remote: self.remote@ }
    }
}

impl FunInfo {
    pub fn new(name: String, id: i32, args: Vec<(String, String)>) -> (info: FunInfo)
        ensures
            info.name == name,
            info.id == id,
            info.args == args,
    {
        FunInfo { name, id, args }
    }
}

} // verus!
