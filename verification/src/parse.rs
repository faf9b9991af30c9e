//! From the syntax of a trait to its method table.
//!
//! A method's operation id is read from its attributes: every attribute with
//! delimited tokens is tried as an integer literal, and the last one that is
//! one decides. Its parameters are those after the first, which is the
//! receiver; each must be a plain name with a type.
//!
//! Whether a text is an integer literal, and which number it stands for, is
//! asked of the parser of Rust syntax. Of a text of one to nine decimal digits
//! the answer is stated; of any other it is not. The functions that ask say
//! what holds whatever the answer is, and the exact result where every text
//! is of that plain kind; [`select_rpc_id`] and [`build_fun_item`] take the
//! answers as an argument and say exactly what comes of them.

use vstd::prelude::*;
use crate::text::{digits_value, is_digit};
use crate::model::{
    FnArg, FunInfo, FunInfoView, GenError, Meta, Pat, TraitItem, TraitItemFn, RPC_ID_THRESHOLD,
    args_view, table_view,
};

verus! {

/// `text` is one to nine decimal digits and nothing else: an integer literal
/// in its plainest form, whose value any `i32` holds.
pub open spec fn plain_decimal(text: Seq<char>) -> bool {
    &&& 0 < text.len() <= 9
    &&& forall|i: int| 0 <= i < text.len() ==> is_digit(#[trigger] text[i])
}

/// Reads `tokens` as an integer literal, with `syn::parse_str::<syn::LitInt>`, and
/// takes its value, with `syn::LitInt::base10_parse::<i32>`.
///
/// Trusted: the call returns, and a text of one to nine decimal digits gives
/// the number that the digits stand for. Of any other text nothing is said:
/// which of them the lexer takes for an integer literal depends on whether
/// the call is made from within a procedural macro.
#[verifier::external_body]
fn parse_int_literal(tokens: &str) -> (value: Option<i32>)
    ensures
        plain_decimal(tokens@) ==> value == Some(digits_value(tokens@) as i32),
{
    match syn::parse_str::<syn::LitInt>(tokens) {
        Ok(literal) => literal.base10_parse::<i32>().ok(),
        Err(_) => None,
    }
}

/// `value` can be what the attribute `attr` gives: only an attribute with
/// delimited tokens gives a number, and where the tokens are plain decimal
/// digits it gives the number that they stand for.
pub open spec fn answer_of(attr: Meta, value: Option<i32>) -> bool {
    match attr {
        Meta::List { tokens } => plain_decimal(tokens@) ==> value == Some(
            digits_value(tokens@) as i32,
        ),
        _ => value is None,
    }
}

/// `values` can be the numbers that the attributes `attrs` give, one place
/// for each attribute in source order.
pub open spec fn answers_fit(attrs: Seq<Meta>, values: Seq<Option<i32>>) -> bool {
    &&& values.len() == attrs.len()
    &&& forall|i: int| 0 <= i < attrs.len() ==> answer_of(attrs[i], #[trigger] values[i])
}

/// `numbers` can be the numbers that the attributes of the methods among
/// `items` give, one place for each item in source order.
pub open spec fn numbers_fit(items: Seq<TraitItem>, numbers: Seq<Seq<Option<i32>>>) -> bool {
    &&& numbers.len() == items.len()
    &&& forall|k: int|
        0 <= k < items.len() && items[k] is Fn ==> answers_fit(
            items[k]->Fn_0.attrs@,
            #[trigger] numbers[k],
        )
}

/// Every attribute among `attrs` that has delimited tokens has plain decimal
/// digits for them.
pub open spec fn plain_attrs(attrs: Seq<Meta>) -> bool {
    forall|i: int|
        0 <= i < attrs.len() && (#[trigger] attrs[i]) is List ==> plain_decimal(
            attrs[i]->tokens@,
        )
}

/// Every method among `items` has attributes of that kind only.
pub open spec fn all_plain(items: Seq<TraitItem>) -> bool {
    forall|k: int|
        0 <= k < items.len() && (#[trigger] items[k]) is Fn ==> plain_attrs(items[k]->Fn_0.attrs@)
}

/// The number that an attribute gives where its tokens are plain decimal digits.
pub open spec fn plain_answer(attr: Meta) -> Option<i32> {
    match attr {
        Meta::List { tokens } => if plain_decimal(tokens@) {
            Some(digits_value(tokens@) as i32)
        } else {
            None
        },
        _ => None,
    }
}

/// The numbers that attributes give whose tokens are plain decimal digits.
pub open spec fn plain_answers(attrs: Seq<Meta>) -> Seq<Option<i32>> {
    attrs.map_values(|attr: Meta| plain_answer(attr))
}

/// The numbers of the methods among `items`, all read in that way.
pub open spec fn plain_numbers(items: Seq<TraitItem>) -> Seq<Seq<Option<i32>>> {
    items.map_values(
        |item: TraitItem|
            match item {
                TraitItem::Fn(item) => plain_answers(item.attrs@),
                TraitItem::Other => Seq::empty(),
            },
    )
}

/// The last number among `values`, or zero where there is none.
pub open spec fn last_literal(values: Seq<Option<i32>>) -> i32
    decreases values.len(),
{
    if values.len() == 0 {
        0
    } else {
        match values.last() {
            Some(v) => v,
            None => last_literal(values.drop_last()),
        }
    }
}

/// A declared id as it is accepted: zero, or a number at or above the threshold.
pub open spec fn checked_rpc_id(id: i32) -> Result<i32, GenError> {
    if id != 0 && id < RPC_ID_THRESHOLD {
        Err(GenError::InvalidRpcId(id))
    } else {
        Ok(id)
    }
}

/// The id that a method declares, given the numbers of its attributes.
pub open spec fn rpc_id_of(values: Seq<Option<i32>>) -> Result<i32, GenError> {
    checked_rpc_id(last_literal(values))
}

/// The name and type of a parameter that is a plain binding.
pub open spec fn binding_of(arg: FnArg) -> Option<(Seq<char>, Seq<char>)> {
    match arg {
        FnArg::Typed { pat: Pat::Ident { ident }, ty } => Some((ident@, ty@)),
        _ => None,
    }
}

/// The parameters of a method after the first, where each is a plain binding.
pub open spec fn fun_args_of(inputs: Seq<FnArg>) -> Result<Seq<(Seq<char>, Seq<char>)>, GenError> {
    if inputs.len() == 0 {
        Ok(Seq::empty())
    } else {
        let rest = inputs.skip(1);
        if exists|i: int| 0 <= i < rest.len() && #[trigger] binding_of(rest[i]) is None {
            Err(GenError::MalformedParameter)
        } else {
            Ok(rest.map_values(|arg: FnArg| binding_of(arg).unwrap()))
        }
    }
}

/// The table entry of a method whose attributes give the numbers `values`:
/// its name, the id it declares and its parameters. Of two errors that of the
/// id comes first.
pub open spec fn fun_info_of(item: TraitItemFn, values: Seq<Option<i32>>) -> Result<
    FunInfoView,
    GenError,
> {
    match rpc_id_of(values) {
        Err(e) => Err(e),
        Ok(id) => match fun_args_of(item.inputs@) {
            Err(e) => Err(e),
            Ok(args) => Ok(FunInfoView { name: item.ident@, id, args }),
        },
    }
}

/// The table of a trait body whose methods' attributes give the numbers
/// `numbers`: one entry for each method, in source order, the other items
/// passed over; or the error of the first method that has one.
pub open spec fn fun_infos_of(items: Seq<TraitItem>, numbers: Seq<Seq<Option<i32>>>) -> Result<
    Seq<FunInfoView>,
    GenError,
>
    decreases items.len(),
{
    if items.len() == 0 {
        Ok(Seq::empty())
    } else {
        match fun_infos_of(items.drop_last(), numbers.drop_last()) {
            Err(e) => Err(e),
            Ok(infos) => match items.last() {
                TraitItem::Other => Ok(infos),
                TraitItem::Fn(item) => match fun_info_of(item, numbers[items.len() - 1]) {
                    Err(e) => Err(e),
                    Ok(info) => Ok(infos.push(info)),
                },
            },
        }
    }
}

/// `r` is the entry `wanted`, or the error that stands in its place.
pub open spec fn is_fun_info(r: Result<FunInfo, GenError>, wanted: Result<FunInfoView, GenError>) -> bool {
    match wanted {
        Ok(info) => r is Ok && r->Ok_0@ == info,
        Err(e) => r == Err::<FunInfo, GenError>(e),
    }
}

/// `r` is the table `wanted`, or the error that stands in its place.
pub open spec fn is_table(
    r: Result<Vec<FunInfo>, GenError>,
    wanted: Result<Seq<FunInfoView>, GenError>,
) -> bool {
    match wanted {
        Ok(infos) => r is Ok && table_view(r->Ok_0@) == infos,
        Err(e) => r == Err::<Vec<FunInfo>, GenError>(e),
    }
}

/// Decides the id that a method declares from the numbers that its attributes
/// give: the last number, or zero for none, which asks for an automatic id. A
/// number that is neither zero nor at or above [`RPC_ID_THRESHOLD`] is refused.
pub fn select_rpc_id(values: &Vec<Option<i32>>) -> (r: Result<i32, GenError>)
    ensures
        r == rpc_id_of(values@),
{
    let mut result: i32 = 0;
    let mut i: usize = 0;
    while i < values.len()
        invariant
            i <= values.len(),
            result == last_literal(values@.take(i as int)),
        decreases values.len() - i,
    {
        if let Some(v) = values[i] {
            result = v;
        }
        proof {
            assert(values@.take(i + 1).drop_last() =~= values@.take(i as int));
        }
        i = i + 1;
    }
    assert(values@.take(values.len() as int) =~= values@);
    if result != 0 && result < RPC_ID_THRESHOLD {
        Err(GenError::InvalidRpcId(result))
    } else {
        Ok(result)
    }
}

/// Reads the id that a method declares from its attributes: each attribute
/// with delimited tokens is tried as an integer literal, and [`select_rpc_id`]
/// decides on what came of it. Where every such attribute holds plain decimal
/// digits the id is fixed by the attributes; of other texts the parser decides.
pub fn parse_rpc_id(item: &TraitItemFn) -> (r: Result<i32, GenError>)
    ensures
        exists|values: Seq<Option<i32>>| #[trigger]
            answers_fit(item.attrs@, values) && r == rpc_id_of(values),
        plain_attrs(item.attrs@) ==> r == rpc_id_of(plain_answers(item.attrs@)),
        (forall|i: int| 0 <= i < item.attrs@.len() ==> !(#[trigger] item.attrs@[i] is List)) ==> r
            == Ok::<i32, GenError>(0),
{
    let values = read_literals(item);
    proof {
        lemma_no_literal(values@);
        lemma_plain_answers(item.attrs@, values@);
    }
    select_rpc_id(&values)
}

/// Hands the tokens of each attribute that has some to the parser, in source
/// order, and keeps what it answers.
fn read_literals(item: &TraitItemFn) -> (values: Vec<Option<i32>>)
    ensures
        answers_fit(item.attrs@, values@),
{
    let mut values: Vec<Option<i32>> = Vec::new();
    let mut i: usize = 0;
    while i < item.attrs.len()
        invariant
            i <= item.attrs.len(),
            values.len() == i,
            forall|j: int| 0 <= j < i ==> answer_of(item.attrs@[j], #[trigger] values@[j]),
        decreases item.attrs.len() - i,
    {
        let value: Option<i32> = match &item.attrs[i] {
            Meta::List { tokens } => parse_int_literal(tokens.as_str()),
            _ => None,
        };
        values.push(value);
        i = i + 1;
    }
    values
}

/// Reads the parameters of a method: those after the first, each by its name
/// and its type, in source order. One that is no plain binding is an error.
pub fn parse_fun_args(item: &TraitItemFn) -> (r: Result<Vec<(String, String)>, GenError>)
    ensures
        match fun_args_of(item.inputs@) {
            Ok(args) => r is Ok && args_view(r->Ok_0@) == args,
            Err(e) => r == Err::<Vec<(String, String)>, GenError>(e),
        },
{
    let n: usize = item.inputs.len();
    let mut args: Vec<(String, String)> = Vec::new();
    if n == 0 {
        assert(args_view(args@) =~= Seq::empty());
        return Ok(args);
    }
    let ghost rest = item.inputs@.skip(1);
    let mut i: usize = 1;
    while i < n
        invariant
            1 <= i <= n,
            n == item.inputs.len(),
            rest == item.inputs@.skip(1),
            args.len() == i - 1,
            forall|j: int|
                0 <= j < i - 1 ==> #[trigger] binding_of(rest[j]) == Some((args[j].0@, args[j].1@)),
        decreases n - i,
    {
        assert(rest[i - 1] == item.inputs[i as int]);
        match &item.inputs[i] {
            FnArg::Typed { pat: Pat::Ident { ident }, ty } => {
                args.push((ident.clone(), ty.clone()));
            },
            _ => {
                assert(binding_of(rest[i - 1]) is None);
                return Err(GenError::MalformedParameter);
            },
        }
        i = i + 1;
    }
    proof {
        assert forall|j: int| 0 <= j < rest.len() implies !(#[trigger] binding_of(rest[j]) is None) by {
            assert(binding_of(rest[j]) == Some((args[j].0@, args[j].1@)));
        }
        let wanted = rest.map_values(|arg: FnArg| binding_of(arg).unwrap());
        assert forall|j: int| 0 <= j < rest.len() implies args_view(args@)[j]
            == #[trigger] wanted[j] by {
            assert(binding_of(rest[j]) == Some((args[j].0@, args[j].1@)));
        }
        assert(args_view(args@) =~= wanted);
    }
    Ok(args)
}

/// Reads one method into its table entry.
pub fn parse_fun_item(item: &TraitItemFn) -> (r: Result<FunInfo, GenError>)
    ensures
        exists|values: Seq<Option<i32>>| #[trigger]
            answers_fit(item.attrs@, values) && is_fun_info(r, fun_info_of(*item, values)),
        plain_attrs(item.attrs@) ==> is_fun_info(
            r,
            fun_info_of(*item, plain_answers(item.attrs@)),
        ),
{
    let values = read_literals(item);
    proof {
        lemma_plain_answers(item.attrs@, values@);
    }
    build_fun_item(item, &values)
}

/// Builds the table entry of a method from the numbers that its attributes give.
pub fn build_fun_item(item: &TraitItemFn, values: &Vec<Option<i32>>) -> (r: Result<
    FunInfo,
    GenError,
>)
    ensures
        is_fun_info(r, fun_info_of(*item, values@)),
{
    let id: i32 = match select_rpc_id(values) {
        Ok(id) => id,
        Err(e) => {
            return Err(e);
        },
    };
    let args: Vec<(String, String)> = match parse_fun_args(item) {
        Ok(args) => args,
        Err(e) => {
            return Err(e);
        },
    };
    Ok(FunInfo::new(item.ident.clone(), id, args))
}

/// Reads the methods of a trait body into the method table. Where every
/// attribute with delimited tokens holds plain decimal digits, the table is
/// fixed by the trait body.
pub fn parse_fun_items(items: &Vec<TraitItem>) -> (r: Result<Vec<FunInfo>, GenError>)
    ensures
        exists|numbers: Seq<Seq<Option<i32>>>| #[trigger]
            numbers_fit(items@, numbers) && is_table(r, fun_infos_of(items@, numbers)),
        all_plain(items@) ==> is_table(r, fun_infos_of(items@, plain_numbers(items@))),
{
    let ghost mut numbers: Seq<Seq<Option<i32>>> = Seq::empty();
    let mut fun_infos: Vec<FunInfo> = Vec::new();
    let mut i: usize = 0;
    assert(table_view(fun_infos@) =~= Seq::empty());
    while i < items.len()
        invariant
            i <= items.len(),
            numbers_fit(items@.take(i as int), numbers),
            fun_infos_of(items@.take(i as int), numbers) == Ok::<Seq<FunInfoView>, GenError>(
                table_view(fun_infos@),
            ),
        decreases items.len() - i,
    {
        let ghost before = numbers;
        let ghost head = items@.take(i + 1);
        assert(head.drop_last() =~= items@.take(i as int));
        match &items[i] {
            TraitItem::Fn(item) => {
                let r = parse_fun_item(item);
                proof {
                    let values = choose|values: Seq<Option<i32>>| #[trigger]
                        answers_fit(item.attrs@, values) && is_fun_info(
                            r,
                            fun_info_of(*item, values),
                        );
                    numbers = before.push(values);
                    assert(numbers.drop_last() =~= before);
                }
                match r {
                    Ok(info) => {
                        let ghost table = table_view(fun_infos@);
                        fun_infos.push(info);
                        assert(table_view(fun_infos@) =~= table.push(info@));
                    },
                    Err(e) => {
                        proof {
                            let all = numbers + plain_numbers(items@).skip(i + 1);
                            assert(all.take(i + 1) =~= numbers);
                            lemma_fun_infos_err(items@, all, i + 1);
                            assert(numbers_fit(items@, all)) by {
                                assert forall|k: int|
                                    0 <= k < items@.len() && items@[k] is Fn implies answers_fit(
                                    items@[k]->Fn_0.attrs@,
                                    #[trigger] all[k],
                                ) by {
                                    if k <= i {
                                        assert(head[k] == items@[k]);
                                        assert(numbers[k] == all[k]);
                                    } else {
                                        assert(all[k] == plain_numbers(items@)[k]);
                                    }
                                }
                            }
                            lemma_all_plain(items@, all);
                        }
                        return Err(e);
                    },
                }
            },
            TraitItem::Other => {
                proof {
                    numbers = before.push(Seq::empty());
                    assert(numbers.drop_last() =~= before);
                }
            },
        }
        proof {
            assert forall|k: int| 0 <= k < head.len() && head[k] is Fn implies answers_fit(
                head[k]->Fn_0.attrs@,
                #[trigger] numbers[k],
            ) by {
                if k < i {
                    assert(items@.take(i as int)[k] == head[k]);
                    assert(before[k] == numbers[k]);
                }
            }
        }
        i = i + 1;
    }
    proof {
        assert(items@.take(items.len() as int) =~= items@);
        lemma_all_plain(items@, numbers);
    }
    Ok(fun_infos)
}

/// Among numbers without a number the last number is zero.
proof fn lemma_no_literal(values: Seq<Option<i32>>)
    ensures
        (forall|i: int| 0 <= i < values.len() ==> (#[trigger] values[i]) is None) ==> last_literal(
            values,
        ) == 0,
    decreases values.len(),
{
    if values.len() > 0 {
        lemma_no_literal(values.drop_last());
        if forall|i: int| 0 <= i < values.len() ==> (#[trigger] values[i]) is None {
            assert forall|i: int| 0 <= i < values.drop_last().len() implies (
            #[trigger] values.drop_last()[i]) is None by {
                assert(values[i] is None);
            }
        }
    }
}

/// An error among the first `n` items is the error of the whole body.
proof fn lemma_fun_infos_err(items: Seq<TraitItem>, numbers: Seq<Seq<Option<i32>>>, n: int)
    requires
        0 <= n <= items.len(),
        numbers.len() == items.len(),
    ensures
        fun_infos_of(items.take(n), numbers.take(n)) is Err ==> fun_infos_of(items, numbers)
            == fun_infos_of(items.take(n), numbers.take(n)),
    decreases items.len() - n,
{
    if n < items.len() {
        assert(items.take(n + 1).drop_last() =~= items.take(n));
        assert(numbers.take(n + 1).drop_last() =~= numbers.take(n));
        lemma_fun_infos_err(items, numbers, n + 1);
    } else {
        assert(items.take(n) =~= items);
        assert(numbers.take(n) =~= numbers);
    }
}

/// The table of a body rests on the numbers of its methods only.
proof fn lemma_fun_infos_same(
    items: Seq<TraitItem>,
    a: Seq<Seq<Option<i32>>>,
    b: Seq<Seq<Option<i32>>>,
)
    requires
        a.len() == items.len(),
        b.len() == items.len(),
        forall|k: int| 0 <= k < items.len() && items[k] is Fn ==> #[trigger] a[k] == b[k],
    ensures
        fun_infos_of(items, a) == fun_infos_of(items, b),
    decreases items.len(),
{
    if items.len() > 0 {
        assert forall|k: int|
            0 <= k < items.drop_last().len() && items.drop_last()[k] is Fn implies #[trigger] a.drop_last()[k]
            == b.drop_last()[k] by {
            assert(a[k] == b[k]);
        }
        lemma_fun_infos_same(items.drop_last(), a.drop_last(), b.drop_last());
        if items.last() is Fn {
            assert(a[items.len() - 1] == b[items.len() - 1]);
        }
    }
}

/// Where the attributes hold plain decimal digits, numbers that fit are the
/// numbers that the digits stand for.
proof fn lemma_plain_answers(attrs: Seq<Meta>, values: Seq<Option<i32>>)
    requires
        answers_fit(attrs, values),
    ensures
        plain_attrs(attrs) ==> values == plain_answers(attrs),
{
    if plain_attrs(attrs) {
        assert forall|i: int| 0 <= i < attrs.len() implies values[i] == #[trigger] plain_answers(
            attrs,
        )[i] by {
            assert(answer_of(attrs[i], values[i]));
            if attrs[i] is List {
                assert(plain_decimal(attrs[i]->tokens@));
            }
        }
        assert(values =~= plain_answers(attrs));
    }
}

/// Where the attributes of every method hold plain decimal digits, numbers
/// that fit give the table that the digits give.
proof fn lemma_all_plain(items: Seq<TraitItem>, numbers: Seq<Seq<Option<i32>>>)
    requires
        numbers_fit(items, numbers),
    ensures
        all_plain(items) ==> fun_infos_of(items, numbers) == fun_infos_of(
            items,
            plain_numbers(items),
        ),
{
    if all_plain(items) {
        let plain = plain_numbers(items);
        assert forall|k: int| 0 <= k < items.len() && items[k] is Fn implies #[trigger] numbers[k]
            == plain[k] by {
            lemma_plain_answers(items[k]->Fn_0.attrs@, numbers[k]);
        }
        lemma_fun_infos_same(items, numbers, plain);
    }
}

} // verus!
