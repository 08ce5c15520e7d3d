//! What the generated tests and arms mean when they run, and what the
//! generators guarantee of them: when a field is written, which arm of the
//! decoder a field number runs, and how a default is held.
//!
//! The meaning is given for the fragment of the language that the
//! generators emit: strict inequality, `&&` with its short circuit, the
//! literals, `BigInt(n)`, the size of a container, `if` without `else`,
//! `for ... of` over the field, and the choice of an arm by `switch`.

use crate::ast::{BinaryOp, SpecExpr, SpecStmt, SpecSwitchCase, SpecTsType, TsKeyword};
use crate::common::field::{
    default_value, is_defined, proto3_default_of, target_type, FieldAccessor,
};
use crate::context::{each, SpecEnv, Syntax};
use crate::descriptor::SpecField;
use crate::runtime::google_protobuf::deserialize::{
    decoder, field_cases, unknown_tag_case, zero_tag_case,
};
use crate::runtime::google_protobuf::serialize::{field_write, plain_write};
use vstd::prelude::*;

verus! {

/// What a field holds while the generated code runs.
pub enum Value {
    Undefined,
    Number(int),
    BigInt(int),
    /// The decimal text of an integer.
    Decimal(int),
    Text(Seq<char>),
    Boolean(bool),
    Bytes(Seq<u8>),
    List(Seq<Value>),
    Entries(Seq<(Value, Value)>),
    Object,
}

impl Value {
    /// The `length` or `size` of a value that has one.
    pub open spec fn count(self) -> Option<int> {
        match self {
            Value::Text(s) => Some(s.len() as int),
            Value::Bytes(b) => Some(b.len() as int),
            Value::List(l) => Some(l.len() as int),
            Value::Entries(m) => Some(m.len() as int),
            _ => None,
        }
    }
}

/// The value of an operand of a test, where `x` reaches a field that holds
/// `v`. `None` stands for what the fragment gives no value: an
/// expression outside it, or the size of what has none.
pub open spec fn eval_term(e: SpecExpr, x: SpecExpr, v: Value) -> Option<Value> {
    if e == x {
        Some(v)
    } else {
        match e {
            SpecExpr::Ident(name) => if name == "undefined"@ {
                Some(Value::Undefined)
            } else {
                None
            },
            SpecExpr::Num(n) => Some(Value::Number(n)),
            SpecExpr::Str(s) => Some(Value::Text(s)),
            SpecExpr::Bool(b) => Some(Value::Boolean(b)),
            SpecExpr::Call(callee, args) => if *callee == SpecExpr::Ident("BigInt"@) && args.len()
                == 1 && args[0] is Num {
                Some(Value::BigInt(args[0]->Num_0))
            } else {
                None
            },
            SpecExpr::Member(obj, prop) => if *obj == x && (prop == "size"@ || prop == "length"@) {
                match v.count() {
                    Some(n) => Some(Value::Number(n)),
                    None => None,
                }
            } else {
                None
            },
            _ => None,
        }
    }
}

/// Whether a test holds, where `x` reaches a field that holds `v`.
pub open spec fn eval_test(e: SpecExpr, x: SpecExpr, v: Value) -> Option<bool>
    decreases e,
{
    match e {
        SpecExpr::Bin(BinaryOp::LogicalAnd, left, right) => match eval_test(*left, x, v) {
            Some(true) => eval_test(*right, x, v),
            Some(false) => Some(false),
            None => None,
        },
        SpecExpr::Bin(BinaryOp::NotEqEq, left, right) => match (
            eval_term(*left, x, v),
            eval_term(*right, x, v),
        ) {
            (Some(a), Some(b)) => Some(a != b),
            _ => None,
        },
        _ => None,
    }
}

/// How many writes the body of a write statement makes: one for a call,
/// and for a loop over the field one for each of its elements.
pub open spec fn body_writes(s: SpecStmt, x: SpecExpr, v: Value) -> Option<int> {
    match s {
        SpecStmt::Expr(SpecExpr::Call(_, _)) => Some(1),
        SpecStmt::ForOf(_, iterable, _) => if iterable == x {
            match v {
                Value::List(l) => Some(l.len() as int),
                Value::Entries(m) => Some(m.len() as int),
                _ => None,
            }
        } else {
            None
        },
        _ => None,
    }
}

/// How many writes a write statement `if (test) body` makes, where `x`
/// reaches a field that holds `v`.
pub open spec fn executed_writes(w: SpecStmt, x: SpecExpr, v: Value) -> Option<int> {
    match w {
        SpecStmt::If(test, body, None) => match eval_test(test, x, v) {
            Some(true) => body_writes(*body, x, v),
            Some(false) => Some(0),
            None => None,
        },
        _ => None,
    }
}

/// The value that a field of the third dialect has while it is unset.
pub open spec fn implicit_default(f: SpecField, env: SpecEnv) -> Option<Value> {
    if f.is_repeated() || f.has_oneof_index() {
        None
    } else if f.is_string() {
        Some(Value::Text(Seq::empty()))
    } else if f.is_bigint() {
        Some(Value::BigInt(0))
    } else if f.is_number() {
        Some(Value::Number(0))
    } else if f.is_boolean() {
        Some(Value::Boolean(false))
    } else if f.is_enum() {
        match env.leading_enum_member(f.type_ref) {
            Some(n) => Some(Value::Number(n)),
            None => None,
        }
    } else {
        None
    }
}

/// `this.name`
pub open spec fn this_field(f: SpecField) -> SpecExpr {
    FieldAccessor::ThisMember.spec_access(f)
}

/// In the third dialect a field that holds its implicit default is not
/// written: a number set to zero, an empty string, `false`, the first
/// member of an enum.
pub proof fn lemma_implicit_default_is_not_written(f: SpecField, env: SpecEnv)
    requires
        env.syntax == Syntax::Proto3,
        implicit_default(f, env) is Some,
    ensures
        plain_write(f, env, FieldAccessor::ThisMember) is Ok,
        executed_writes(
            plain_write(f, env, FieldAccessor::ThisMember)->Ok_0,
            this_field(f),
            implicit_default(f, env)->Some_0,
        ) == Some(0int),
{
    reveal_strlit("");
    assert(""@ =~= Seq::<char>::empty());
    let x = this_field(f);
    let v = implicit_default(f, env)->Some_0;
    let d = proto3_default_of(f, env)->Ok_0->Some_0;
    assert(eval_test(SpecExpr::not_eq(x, d), x, v) == Some(false));
    assert(eval_test(is_defined(x), x, v) == Some(true));
}

/// Outside the third dialect a field that is set is written, whatever it
/// is set to: any field that is neither repeated nor a member of a oneof
/// group makes exactly one write once it is defined.
pub proof fn lemma_set_field_is_written(f: SpecField, env: SpecEnv, v: Value)
    requires
        env.syntax != Syntax::Proto3,
        !f.is_repeated(),
        !f.has_oneof_index(),
        v != Value::Undefined,
    ensures
        plain_write(f, env, FieldAccessor::ThisMember) is Ok,
        executed_writes(plain_write(f, env, FieldAccessor::ThisMember)->Ok_0, this_field(f), v)
            == Some(1int),
{
}

/// A member of a oneof group makes one write when it is defined and none
/// when it is not, in every dialect and whatever value it holds.
pub proof fn lemma_oneof_member_is_written_once(f: SpecField, env: SpecEnv, v: Value)
    requires
        f.has_oneof_index(),
        !f.is_repeated(),
    ensures
        field_write(f, env, FieldAccessor::ThisMember) is Ok,
        executed_writes(field_write(f, env, FieldAccessor::ThisMember)->Ok_0, this_field(f), v)
            == Some(if v != Value::Undefined {
            1int
        } else {
            0int
        }),
{
}

/// How many writes the members of the oneof group `group` make, where
/// `values` holds what each field holds.
pub open spec fn group_writes(
    fields: Seq<SpecField>,
    values: Seq<Value>,
    env: SpecEnv,
    group: int,
) -> Option<int>
    decreases fields.len(),
{
    if fields.len() == 0 {
        Some(0)
    } else {
        let f = fields.last();
        let rest = group_writes(fields.drop_last(), values.drop_last(), env, group);
        if f.oneof_index == Some(group) {
            match (rest, field_write(f, env, FieldAccessor::ThisMember)) {
                (Some(n), Ok(w)) => match executed_writes(w, this_field(f), values.last()) {
                    Some(k) => Some(n + k),
                    None => None,
                },
                _ => None,
            }
        } else {
            rest
        }
    }
}

/// How many members of the oneof group `group` are defined.
pub open spec fn set_members(fields: Seq<SpecField>, values: Seq<Value>, group: int) -> int
    decreases fields.len(),
{
    if fields.len() == 0 {
        0
    } else {
        set_members(fields.drop_last(), values.drop_last(), group) + if fields.last().oneof_index
            == Some(group) && values.last() != Value::Undefined {
            1int
        } else {
            0int
        }
    }
}

/// A oneof group makes as many writes as it has members that are defined:
/// with one member set and the others absent exactly one, whatever the
/// member is set to.
pub proof fn lemma_oneof_group_writes(
    fields: Seq<SpecField>,
    values: Seq<Value>,
    env: SpecEnv,
    group: int,
)
    requires
        fields.len() == values.len(),
        forall|i: int|
            0 <= i < fields.len() && (#[trigger] fields[i]).has_oneof_index()
                ==> !fields[i].is_repeated(),
    ensures
        group_writes(fields, values, env, group) == Some(set_members(fields, values, group)),
    decreases fields.len(),
{
    if fields.len() > 0 {
        lemma_oneof_group_writes(fields.drop_last(), values.drop_last(), env, group);
    }
}

/// The index of the first arm whose test is the number `n`.
pub open spec fn matching_arm(cases: Seq<SpecSwitchCase>, n: int) -> Option<int>
    decreases cases.len(),
{
    if cases.len() == 0 {
        None
    } else if cases[0].test == Some(SpecExpr::Num(n)) {
        Some(0)
    } else {
        match matching_arm(cases.drop_first(), n) {
            Some(i) => Some(i + 1),
            None => None,
        }
    }
}

/// The index of the first arm without a test.
pub open spec fn default_arm(cases: Seq<SpecSwitchCase>) -> Option<int>
    decreases cases.len(),
{
    if cases.len() == 0 {
        None
    } else if cases[0].test is None {
        Some(0)
    } else {
        match default_arm(cases.drop_first()) {
            Some(i) => Some(i + 1),
            None => None,
        }
    }
}

/// The arm that a `switch` over the number `n` runs: the first whose test
/// is `n`, else the arm without a test.
pub open spec fn selected_arm(cases: Seq<SpecSwitchCase>, n: int) -> Option<SpecSwitchCase> {
    match matching_arm(cases, n) {
        Some(i) => Some(cases[i]),
        None => match default_arm(cases) {
            Some(j) => Some(cases[j]),
            None => None,
        },
    }
}

/// The arms of the decoding loop.
pub open spec fn arms_of(decoder: SpecStmt) -> Seq<SpecSwitchCase> {
    match decoder {
        SpecStmt::While(_, body) => match *body {
            SpecStmt::Block(stmts) => if stmts.len() == 1 {
                match stmts[0] {
                    SpecStmt::Switch(_, cases) => cases,
                    _ => Seq::empty(),
                }
            } else {
                Seq::empty()
            },
            _ => Seq::empty(),
        },
        _ => Seq::empty(),
    }
}

/// Whether a field of the message has the number `n`.
pub open spec fn has_number(fields: Seq<SpecField>, n: int) -> bool {
    exists|i: int| 0 <= i < fields.len() && (#[trigger] fields[i]).number == n
}

/// The arms of the known fields stand in the order of the fields, each
/// under its field's number.
proof fn lemma_cases_tests(
    fields: Seq<SpecField>,
    env: SpecEnv,
    accessor: FieldAccessor,
)
    requires
        field_cases(fields, env, accessor).value is Ok,
    ensures
        field_cases(fields, env, accessor).value->Ok_0.len() == fields.len(),
        forall|i: int|
            0 <= i < fields.len() ==> (#[trigger] field_cases(
                fields,
                env,
                accessor,
            ).value->Ok_0[i]).test == Some(SpecExpr::Num(fields[i].number)),
    decreases fields.len(),
{
    if fields.len() > 0 {
        lemma_cases_tests(fields.drop_last(), env, accessor);
    }
}

/// An arm under the number `n` is found at the first field of that number.
proof fn lemma_matching_arm(cases: Seq<SpecSwitchCase>, n: int)
    ensures
        match matching_arm(cases, n) {
            Some(i) => 0 <= i < cases.len() && cases[i].test == Some(SpecExpr::Num(n)),
            None => forall|i: int|
                0 <= i < cases.len() ==> (#[trigger] cases[i]).test != Some(SpecExpr::Num(n)),
        },
    decreases cases.len(),
{
    if cases.len() > 0 && cases[0].test != Some(SpecExpr::Num(n)) {
        lemma_matching_arm(cases.drop_first(), n);
        let rest = cases.drop_first();
        if matching_arm(rest, n) is None {
            assert forall|i: int| 0 <= i < cases.len() implies (#[trigger] cases[i]).test
                != Some(SpecExpr::Num(n)) by {
                if i > 0 {
                    assert(rest[i - 1] == cases[i]);
                }
            }
        }
    }
}

/// The arm without a test is found behind arms that all have one.
proof fn lemma_default_arm_last(cases: Seq<SpecSwitchCase>, last: SpecSwitchCase)
    requires
        forall|i: int| 0 <= i < cases.len() ==> (#[trigger] cases[i]).test is Some,
        last.test is None,
    ensures
        default_arm(cases.push(last)) == Some(cases.len() as int),
    decreases cases.len(),
{
    let all = cases.push(last);
    if cases.len() > 0 {
        assert(all.drop_first() =~= cases.drop_first().push(last));
        assert forall|i: int| 0 <= i < cases.drop_first().len() implies (
        #[trigger] cases.drop_first()[i]).test is Some by {}
        lemma_default_arm_last(cases.drop_first(), last);
    }
}

/// What the decoder of a message does with a field number.
///
/// The number zero, which no field of a message has, runs the arm that
/// throws. A number of a field runs an arm under that number. Any other
/// number runs the arm that skips the field and nothing else.
pub proof fn lemma_decoder_dispatch(
    fields: Seq<SpecField>,
    env: SpecEnv,
    accessor: FieldAccessor,
    n: int,
)
    requires
        decoder(fields, env, accessor).value is Ok,
        !has_number(fields, 0),
    ensures
        ({
            let arm = selected_arm(arms_of(decoder(fields, env, accessor).value->Ok_0), n);
            if n == 0 {
                arm == Some(zero_tag_case())
            } else if has_number(fields, n) {
                arm is Some && arm->Some_0.test == Some(SpecExpr::Num(n))
            } else {
                arm == Some(unknown_tag_case())
            }
        }),
{
    let known = field_cases(fields, env, accessor).value->Ok_0;
    let with_zero = known.push(zero_tag_case());
    let arms = with_zero.push(unknown_tag_case());
    lemma_cases_tests(fields, env, accessor);
    lemma_matching_arm(arms, n);
    assert forall|i: int| 0 <= i < with_zero.len() implies (
    #[trigger] with_zero[i]).test is Some by {}
    lemma_default_arm_last(with_zero, unknown_tag_case());
    assert(arms[known.len() as int] == zero_tag_case());
    assert forall|i: int| 0 <= i < known.len() implies (#[trigger] arms[i]).test == Some(
        SpecExpr::Num(fields[i].number),
    ) by {}
    if n != 0 && has_number(fields, n) {
        let k = choose|k: int| 0 <= k < fields.len() && (#[trigger] fields[k]).number == n;
        assert(arms[k].test == Some(SpecExpr::Num(n)));
    }
}

/// How a value is held while the generated code runs.
#[derive(PartialEq, Eq, Structural)]
pub enum Representation {
    Number,
    BigInt,
    Text,
    Boolean,
    Bytes,
    Sequence,
}

/// The representation of the values of a type.
pub open spec fn type_representation(t: SpecTsType) -> Option<Representation> {
    match t {
        SpecTsType::Keyword(TsKeyword::Number) => Some(Representation::Number),
        SpecTsType::Keyword(TsKeyword::BigInt) => Some(Representation::BigInt),
        SpecTsType::Keyword(TsKeyword::String) => Some(Representation::Text),
        SpecTsType::Keyword(TsKeyword::Boolean) => Some(Representation::Boolean),
        SpecTsType::Array(_) => Some(Representation::Sequence),
        SpecTsType::Ref(name, params) => if params.len() == 0 && (name == "Uint8Array"@ || name
            == "collections.Uint8Array"@) {
            Some(Representation::Bytes)
        } else if params.len() == 1 && name == "collections.Array"@ {
            Some(Representation::Sequence)
        } else {
            None
        },
        _ => None,
    }
}

/// The representation of the value of an expression.
pub open spec fn expr_representation(e: SpecExpr) -> Option<Representation> {
    match e {
        SpecExpr::Num(_) => Some(Representation::Number),
        SpecExpr::NumText(_) => Some(Representation::Number),
        SpecExpr::Str(_) => Some(Representation::Text),
        SpecExpr::Bool(_) => Some(Representation::Boolean),
        SpecExpr::Array(_) => Some(Representation::Sequence),
        SpecExpr::Call(callee, _) => if *callee == SpecExpr::Ident("BigInt"@) {
            Some(Representation::BigInt)
        } else {
            None
        },
        SpecExpr::New(callee, _) => if *callee == SpecExpr::Ident("Uint8Array"@) || *callee
            == SpecExpr::member(SpecExpr::Ident("collections"@), "Uint8Array"@) {
            Some(Representation::Bytes)
        } else if *callee == SpecExpr::member(SpecExpr::Ident("collections"@), "Array"@) {
            Some(Representation::Sequence)
        } else {
            None
        },
        _ => None,
    }
}

/// A kind that is no reference to another type: a number, a 64-bit
/// integer, a string, a boolean, a byte array.
pub open spec fn is_scalar(f: SpecField) -> bool {
    f.is_number() || f.is_bigint() || f.is_string() || f.is_boolean() || f.is_bytes()
}

/// The value that a scalar field outside a oneof group holds before it is
/// set is of the representation that the field's type has: a 64-bit
/// integer starts as an arbitrary-precision integer, a byte array as a
/// byte array, a repeated field as a sequence.
pub proof fn lemma_default_matches_type(f: SpecField, env: SpecEnv, include_message: bool)
    requires
        is_scalar(f),
        !f.has_oneof_index(),
        default_value(f, env, include_message).value is Ok,
    ensures
        target_type(f, env).value is Ok,
        target_type(f, env).value->Ok_0 is Some,
        type_representation(target_type(f, env).value->Ok_0->Some_0) is Some,
        type_representation(target_type(f, env).value->Ok_0->Some_0) == expr_representation(
            default_value(f, env, include_message).value->Ok_0,
        ),
{
    reveal_strlit("Uint8Array");
    reveal_strlit("Array");
    if f.is_repeated() {
        assert("Uint8Array"@.len() != "Array"@.len());
    }
}

} // verus!
