//! What the generated encoder puts on the wire and what the generated
//! decoder makes of it, and the guarantee that a field comes back from the
//! wire as it went.
//!
//! The wire is a sequence of records, each under the number of a field: one
//! value, a packed run of values, or a block of records. The writer `bw`
//! and the reader `br` have a method for each kind of value, named after
//! the kind: `writeT` and `readT` move one value, `writePackedT` and
//! `readPackedT` a run. The reader hands out what the writer was given,
//! with two conventions: a boolean comes out as the number one or zero,
//! and an integer of 64 bits moves as its decimal text.

use crate::ast::{AssignOp, BinaryOp, SpecBinding, SpecExpr, SpecStmt, SpecSwitchCase, VarKind};
use crate::common::field::{
    default_value, is_defined, is_not_empty, present_expr, proto3_default_of, target_type,
    FieldAccessor,
};
use crate::context::{each, lemma_each_step, Gen, GenError, SpecEnv, Syntax};
use crate::descriptor::{FieldType, SpecField};
use crate::runtime::google_protobuf::deserialize::{
    case_stmts, field_case, map_entry_body, map_read, non_zero_test, plain_case, plain_case_fn,
    plain_cases, plain_read, primitive_read, reader_call, this_call, wrapped_read, wrapped_run,
};
use crate::runtime::google_protobuf::rw_name;
use crate::runtime::google_protobuf::serialize::{
    as_text, each_as_text, entry_write, field_write, plain_write, single_write,
};
use crate::semantics::{
    arms_of, eval_test, implicit_default, is_scalar, matching_arm, selected_arm, this_field,
    Value,
};
use vstd::prelude::*;

verus! {

/// What stands on the wire under one tag, as the reader hands it out.
pub enum Record {
    /// One value under its own tag.
    Single(int, Value),
    /// A packed run of values: one length-delimited block under one tag.
    Run(int, Seq<Value>),
    /// A length-delimited block that holds records of its own.
    Block(int, Seq<Record>),
}

impl Record {
    /// The field number of the tag.
    pub open spec fn number(self) -> int {
        match self {
            Record::Single(n, _) => n,
            Record::Run(n, _) => n,
            Record::Block(n, _) => n,
        }
    }
}

/// Whether `v` is what the reader hands out for one value of the kind `t`:
/// a number for the numeric kinds, for enums and for booleans, within the
/// range of the kind where the kind is unsigned and of 32 bits; the
/// decimal text of an integer for the 64-bit kinds.
pub open spec fn is_raw(t: FieldType, v: Value) -> bool {
    if t.spec_is_bigint() {
        v is Decimal
    } else if t == FieldType::Uint32 {
        v matches Value::Number(n) && 0 <= n < 0x1_0000_0000
    } else if t.spec_is_number() || t == FieldType::Bool || t == FieldType::Enum {
        v is Number
    } else {
        false
    }
}

/// The value that the decoder makes of what the reader hands out for the
/// kind `t`: a boolean of a number by its test against zero, an
/// arbitrary-precision integer of a decimal text, and the value itself of
/// any other number.
pub open spec fn decoded(t: FieldType, raw: Value) -> Value {
    match raw {
        Value::Number(n) => if t == FieldType::Bool {
            Value::Boolean(n != 0)
        } else {
            raw
        },
        Value::Decimal(n) => Value::BigInt(n),
        _ => raw,
    }
}

/// The numbers of a list, each tested against zero; `None` where the list
/// holds anything but numbers.
pub open spec fn each_non_zero(vs: Seq<Value>) -> Option<Seq<Value>> {
    if forall|i: int| 0 <= i < vs.len() ==> (#[trigger] vs[i]) is Number {
        Some(Seq::new(vs.len(), |i: int| Value::Boolean(vs[i]->Number_0 != 0)))
    } else {
        None
    }
}

/// `collections.name.from`
pub open spec fn container_from(name: Seq<char>) -> SpecExpr {
    SpecExpr::member(SpecExpr::member(SpecExpr::ident("collections"@), name), "from"@)
}

/// The value of an expression that reads a field of the kind `t`, where
/// the reader stands at the record `rec`.
///
/// `br.readPackedT()` is the run of values that the record holds, and
/// `br.readT()` the one value, where `T` names the kind `t`. A run mapped
/// through the test against zero is the run of the tests. `BigInt(e)` is
/// the integer that the decimal text `e` denotes, `e >>> 0` the number
/// `e` as an unsigned integer of 32 bits, `e !== 0` the test of the
/// number `e` against zero, and the alternate container made from a
/// value holds what the value holds.
pub open spec fn read_value(e: SpecExpr, t: FieldType, rec: Record) -> Option<Value>
    decreases e,
{
    match e {
        SpecExpr::Call(callee, args) => if args.len() == 0 {
            if *callee == SpecExpr::member(SpecExpr::ident("br"@), rw_name("read"@, true, t)) {
                match rec {
                    Record::Run(_, vs) => Some(Value::List(vs)),
                    _ => None,
                }
            } else if *callee == SpecExpr::member(
                SpecExpr::ident("br"@),
                rw_name("read"@, false, t),
            ) {
                match rec {
                    Record::Single(_, v) => Some(v),
                    _ => None,
                }
            } else {
                None
            }
        } else if args.len() == 1 {
            if *callee == SpecExpr::ident("BigInt"@) {
                match read_value(args[0], t, rec) {
                    Some(Value::Decimal(n)) => Some(Value::BigInt(n)),
                    _ => None,
                }
            } else if *callee == container_from("Array"@) || *callee == container_from(
                "Uint8Array"@,
            ) {
                read_value(args[0], t, rec)
            } else if args[0] == non_zero_test() {
                match *callee {
                    SpecExpr::Member(inner, prop) => if prop == "map"@ {
                        match read_value(*inner, t, rec) {
                            Some(Value::List(vs)) => match each_non_zero(vs) {
                                Some(tests) => Some(Value::List(tests)),
                                None => None,
                            },
                            _ => None,
                        }
                    } else {
                        None
                    },
                    _ => None,
                }
            } else {
                None
            }
        } else {
            None
        },
        SpecExpr::Bin(BinaryOp::ZeroFillRShift, left, right) => if *right == SpecExpr::Num(0) {
            match read_value(*left, t, rec) {
                Some(Value::Number(n)) => Some(Value::Number(n % 0x1_0000_0000)),
                _ => None,
            }
        } else {
            None
        },
        SpecExpr::Bin(BinaryOp::NotEqEq, left, right) => if *right == SpecExpr::Num(0) {
            match read_value(*left, t, rec) {
                Some(Value::Number(n)) => Some(Value::Boolean(n != 0)),
                _ => None,
            }
        } else {
            None
        },
        _ => None,
    }
}

/// What a statement of an arm makes of the field `f`, which holds `cur`,
/// where the reader stands at the record `rec`.
///
/// An assignment to the field gives it the value read. A `push` appends
/// the value read to the list that the field holds, and does nothing
/// where the field is undefined. The test `br.isDelimited()` holds where
/// the record is a packed run.
pub open spec fn run_arm_stmt(s: SpecStmt, f: SpecField, rec: Record, cur: Value) -> Option<Value>
    decreases s,
{
    match s {
        SpecStmt::Expr(SpecExpr::Assign(AssignOp::Assign, target, value)) => if *target
            == this_field(f) {
            read_value(*value, f.type_, rec)
        } else {
            None
        },
        SpecStmt::Expr(SpecExpr::Call(callee, args)) => if *callee == SpecExpr::opt_member(
            this_field(f),
            "push"@,
        ) && args.len() == 1 {
            match (cur, read_value(args[0], f.type_, rec)) {
                (Value::List(l), Some(v)) => Some(Value::List(l.push(v))),
                (Value::Undefined, Some(_)) => Some(Value::Undefined),
                _ => None,
            }
        } else {
            None
        },
        SpecStmt::If(test, cons, Some(alt)) => if test == reader_call("isDelimited"@) {
            if rec is Run {
                run_arm_stmt(*cons, f, rec, cur)
            } else {
                run_arm_stmt(*alt, f, rec, cur)
            }
        } else {
            None
        },
        _ => None,
    }
}

/// What the statements of an arm make of the field up to the `break`.
pub open spec fn run_arm(stmts: Seq<SpecStmt>, f: SpecField, rec: Record, cur: Value) -> Option<
    Value,
>
    decreases stmts.len(),
{
    if stmts.len() == 0 {
        Some(cur)
    } else if stmts[0] is Break {
        Some(cur)
    } else {
        match run_arm_stmt(stmts[0], f, rec, cur) {
            Some(next) => run_arm(stmts.drop_first(), f, rec, next),
            None => None,
        }
    }
}

/// What the arm of the field `f` makes of the field, which starts as
/// `start`, over the records that carry the field's number, in order.
pub open spec fn decode_field(
    arm: SpecSwitchCase,
    f: SpecField,
    records: Seq<Record>,
    start: Value,
) -> Option<Value>
    decreases records.len(),
{
    if records.len() == 0 {
        Some(start)
    } else {
        match decode_field(arm, f, records.drop_last(), start) {
            Some(cur) => if records.last().number() == f.number {
                run_arm(arm.cons, f, records.last(), cur)
            } else {
                Some(cur)
            },
            None => None,
        }
    }
}

/// The values of a field, each under its own tag.
pub open spec fn singles(number: int, raws: Seq<Value>) -> Seq<Record> {
    Seq::new(raws.len(), |i: int| Record::Single(number, raws[i]))
}

/// The values that the decoder makes of what the reader hands out, in
/// order.
pub open spec fn all_decoded(t: FieldType, raws: Seq<Value>) -> Seq<Value> {
    Seq::new(raws.len(), |i: int| decoded(t, raws[i]))
}

/// The method that reads a run and the method that reads one value have
/// different names.
proof fn lemma_packed_name_differs(rw: Seq<char>, t: FieldType)
    ensures
        rw_name(rw, true, t) != rw_name(rw, false, t),
{
    reveal_strlit("Packed");
    assert(rw_name(rw, true, t).len() == rw_name(rw, false, t).len() + 6);
}

/// The arm of a packable field whose kind is not of 64 bits makes one
/// record of the field, packed or not, into the values that it holds.
proof fn lemma_packable_arm(f: SpecField, env: SpecEnv, rec: Record, l: Seq<Value>)
    requires
        f.is_packable(),
        rec is Run ==> !f.is_bigint(),
        rec.number() == f.number,
        match rec {
            Record::Single(_, v) => is_raw(f.type_, v),
            Record::Run(_, vs) => forall|i: int|
                0 <= i < vs.len() ==> is_raw(f.type_, #[trigger] vs[i]),
            Record::Block(_, _) => false,
        },
    ensures
        field_case(f, env, FieldAccessor::ThisMember).value is Ok,
        run_arm(
            field_case(f, env, FieldAccessor::ThisMember).value->Ok_0.cons,
            f,
            rec,
            Value::List(l),
        ) == Some(
            match rec {
                Record::Single(_, v) => Value::List(l.push(decoded(f.type_, v))),
                Record::Run(_, vs) => Value::List(all_decoded(f.type_, vs)),
                Record::Block(_, _) => Value::Undefined,
            },
        ),
{
    let t = f.type_;
    let x = this_field(f);
    lemma_packed_name_differs("read"@, t);
    let run = reader_call(rw_name("read"@, true, t));
    let one = reader_call(rw_name("read"@, false, t));
    let expected = match rec {
        Record::Single(_, v) => Value::List(l.push(decoded(f.type_, v))),
        Record::Run(_, vs) => Value::List(all_decoded(f.type_, vs)),
        Record::Block(_, _) => Value::Undefined,
    };
    reveal_with_fuel(run_arm, 3);
    match rec {
        Record::Single(_, v) => {
            assert(read_value(one, t, rec) == Some(v));
            let push = SpecStmt::Expr(this_call(f, "push"@, seq![primitive_read(f, true)]));
            assert(run_arm_stmt(push, f, rec, Value::List(l)) == Some(
                Value::List(l.push(decoded(t, v))),
            ));
        },
        Record::Run(_, vs) => {
            assert(read_value(run, t, rec) == Some(Value::List(vs)));
            if f.is_boolean() {
                assert(each_non_zero(vs)->Some_0 =~= all_decoded(t, vs));
            } else {
                assert(vs =~= all_decoded(t, vs));
            }
            let set = SpecStmt::Expr(
                SpecExpr::assign(AssignOp::Assign, x, wrapped_run(env, primitive_read(f, false))),
            );
            assert(run_arm_stmt(set, f, rec, Value::List(l)) == Some(expected));
        },
        Record::Block(_, _) => {},
    }
}

/// The decoder accepts both encodings of a repeated field: where the
/// kind of a packable field is not of 64 bits, the one packed run of its
/// values and the values each under its own tag are decoded into the
/// same list, which holds the values in their order.
pub proof fn lemma_packed_and_unpacked_decode_alike(f: SpecField, env: SpecEnv, raws: Seq<Value>)
    requires
        f.is_packable(),
        !f.is_bigint(),
        forall|i: int| 0 <= i < raws.len() ==> is_raw(f.type_, #[trigger] raws[i]),
    ensures
        field_case(f, env, FieldAccessor::ThisMember).value is Ok,
        decode_field(
            field_case(f, env, FieldAccessor::ThisMember).value->Ok_0,
            f,
            seq![Record::Run(f.number, raws)],
            Value::List(Seq::empty()),
        ) == Some(Value::List(all_decoded(f.type_, raws))),
        decode_field(
            field_case(f, env, FieldAccessor::ThisMember).value->Ok_0,
            f,
            singles(f.number, raws),
            Value::List(Seq::empty()),
        ) == Some(Value::List(all_decoded(f.type_, raws))),
{
    let arm = field_case(f, env, FieldAccessor::ThisMember).value->Ok_0;
    let start = Value::List(Seq::empty());
    let packed = seq![Record::Run(f.number, raws)];
    lemma_packable_arm(f, env, packed[0], Seq::empty());
    assert(decode_field(arm, f, packed.drop_last(), start) == Some(start));
    lemma_singles_decode(f, env, raws, raws.len() as int);
    assert(singles(f.number, raws).take(raws.len() as int) =~= singles(f.number, raws));
    assert(all_decoded(f.type_, raws).take(raws.len() as int) =~= all_decoded(f.type_, raws));
}

/// The first `k` values, each under its own tag, are decoded into the list
/// of those values.
proof fn lemma_singles_decode(f: SpecField, env: SpecEnv, raws: Seq<Value>, k: int)
    requires
        f.is_packable(),
        0 <= k <= raws.len(),
        forall|i: int| 0 <= i < raws.len() ==> is_raw(f.type_, #[trigger] raws[i]),
    ensures
        field_case(f, env, FieldAccessor::ThisMember).value is Ok,
        decode_field(
            field_case(f, env, FieldAccessor::ThisMember).value->Ok_0,
            f,
            singles(f.number, raws).take(k),
            Value::List(Seq::empty()),
        ) == Some(Value::List(all_decoded(f.type_, raws).take(k))),
    decreases k,
{
    let arm = field_case(f, env, FieldAccessor::ThisMember).value->Ok_0;
    let records = singles(f.number, raws).take(k);
    if k == 0 {
        let raw = if f.is_bigint() {
            Value::Decimal(0)
        } else {
            Value::Number(0)
        };
        lemma_packable_arm(f, env, Record::Single(f.number, raw), Seq::empty());
        assert(all_decoded(f.type_, raws).take(0) =~= Seq::<Value>::empty());
    } else {
        lemma_singles_decode(f, env, raws, k - 1);
        assert(records.drop_last() =~= singles(f.number, raws).take(k - 1));
        assert(records.last() == Record::Single(f.number, raws[k - 1]));
        let before = all_decoded(f.type_, raws).take(k - 1);
        lemma_packable_arm(f, env, records.last(), before);
        assert(before.push(decoded(f.type_, raws[k - 1])) =~= all_decoded(f.type_, raws).take(k));
    }
}

/// Whether `v` is a value of the kind `t` as the generated class holds it:
/// a number for the numeric kinds and for enums, within the range of the
/// kind where the kind is unsigned and of 32 bits; an arbitrary-precision
/// integer for the 64-bit kinds; a boolean, a string, a byte array.
pub open spec fn is_typed(t: FieldType, v: Value) -> bool {
    if t.spec_is_bigint() {
        v is BigInt
    } else if t == FieldType::Uint32 {
        v matches Value::Number(n) && 0 <= n < 0x1_0000_0000
    } else if t.spec_is_number() || t == FieldType::Enum {
        v is Number
    } else if t == FieldType::Bool {
        v is Boolean
    } else if t == FieldType::String {
        v is Text
    } else if t == FieldType::Bytes {
        v is Bytes
    } else {
        false
    }
}

/// What the reader hands out for what the writer was given: a number for
/// a boolean, one for `true` and zero for `false`, and any other value
/// as it was given.
pub open spec fn on_wire(v: Value) -> Value {
    match v {
        Value::Boolean(b) => Value::Number(
            if b {
                1
            } else {
                0
            },
        ),
        _ => v,
    }
}

/// The decimal texts of a list of arbitrary-precision integers; `None`
/// where the list holds anything else.
pub open spec fn each_decimal(vs: Seq<Value>) -> Option<Seq<Value>> {
    if forall|i: int| 0 <= i < vs.len() ==> (#[trigger] vs[i]) is BigInt {
        Some(Seq::new(vs.len(), |i: int| Value::Decimal(vs[i]->BigInt_0)))
    } else {
        None
    }
}

/// The value of an expression handed to the writer, where `x` holds `v`:
/// `x` itself, `x.toString()` for an arbitrary-precision integer, and
/// `x.map((v) => v.toString())` for a list of them.
pub open spec fn written_value(e: SpecExpr, x: SpecExpr, v: Value) -> Option<Value> {
    if e == x {
        Some(v)
    } else if e == as_text(x) {
        match v {
            Value::BigInt(n) => Some(Value::Decimal(n)),
            _ => None,
        }
    } else if e == each_as_text(x) {
        match v {
            Value::List(l) => match each_decimal(l) {
                Some(texts) => Some(Value::List(texts)),
                None => None,
            },
            _ => None,
        }
    } else {
        None
    }
}

/// What the reader hands out for each value of a list.
pub open spec fn all_on_wire(vs: Seq<Value>) -> Seq<Value> {
    Seq::new(vs.len(), |i: int| on_wire(vs[i]))
}

/// The record that a call of the writer for the kind `t` puts on the wire,
/// where `x` holds `v`: `bw.writeT(number, e)` one value under its tag,
/// and `bw.writePackedT(number, e)` one packed run.
pub open spec fn call_record(s: SpecStmt, t: FieldType, x: SpecExpr, v: Value) -> Option<Record> {
    match s {
        SpecStmt::Expr(SpecExpr::Call(callee, args)) => if args.len() == 2 && args[0] is Num {
            if *callee == SpecExpr::member(SpecExpr::ident("bw"@), rw_name("write"@, false, t)) {
                match written_value(args[1], x, v) {
                    Some(given) => Some(Record::Single(args[0]->Num_0, on_wire(given))),
                    None => None,
                }
            } else if *callee == SpecExpr::member(
                SpecExpr::ident("bw"@),
                rw_name("write"@, true, t),
            ) {
                match written_value(args[1], x, v) {
                    Some(Value::List(given)) => Some(
                        Record::Run(args[0]->Num_0, all_on_wire(given)),
                    ),
                    _ => None,
                }
            } else {
                None
            }
        } else {
            None
        },
        _ => None,
    }
}

/// The records that the body of a loop puts on the wire for each element
/// of a list, in order.
pub open spec fn each_record(
    body: SpecStmt,
    t: FieldType,
    name: SpecExpr,
    elems: Seq<Value>,
) -> Option<Seq<Record>>
    decreases elems.len(),
{
    if elems.len() == 0 {
        Some(Seq::empty())
    } else {
        match (
            each_record(body, t, name, elems.drop_last()),
            call_record(body, t, name, elems.last()),
        ) {
            (Some(before), Some(r)) => Some(before.push(r)),
            _ => None,
        }
    }
}

/// The name that a loop binds.
pub open spec fn bound_name(b: SpecBinding) -> Option<SpecExpr> {
    match b {
        SpecBinding::Name(n) => Some(SpecExpr::ident(n)),
        _ => None,
    }
}

/// The records that the write statement of a field of the kind `t` puts on
/// the wire, where `x` holds `v`: none where the test fails, else what the
/// call of the writer puts there, or what it puts there for each element
/// of the list `v` in a loop over `x`.
pub open spec fn written(w: SpecStmt, t: FieldType, x: SpecExpr, v: Value) -> Option<Seq<Record>> {
    match w {
        SpecStmt::If(test, body, None) => match eval_test(test, x, v) {
            Some(true) => match *body {
                SpecStmt::ForOf(bound, iterable, inner) => if iterable == x && bound_name(bound)
                    is Some {
                    match v {
                        Value::List(l) => each_record(*inner, t, bound_name(bound)->Some_0, l),
                        _ => None,
                    }
                } else {
                    None
                },
                _ => match call_record(*body, t, x, v) {
                    Some(r) => Some(seq![r]),
                    None => None,
                },
            },
            Some(false) => Some(Seq::empty()),
            None => None,
        },
        _ => None,
    }
}

/// Whether every value of a list is of the kind `t`.
pub open spec fn all_typed(t: FieldType, vs: Seq<Value>) -> bool {
    forall|i: int| 0 <= i < vs.len() ==> is_typed(t, #[trigger] vs[i])
}

/// The values of a repeated field that is not packed go on the wire each
/// under its own tag.
proof fn lemma_each_record(f: SpecField, vs: Seq<Value>, raws: Seq<Value>, k: int)
    requires
        f.is_packable(),
        all_typed(f.type_, vs),
        0 <= k <= vs.len(),
        raws.len() == vs.len(),
        forall|i: int|
            0 <= i < vs.len() ==> #[trigger] raws[i] == if f.is_bigint() {
                Value::Decimal(vs[i]->BigInt_0)
            } else {
                on_wire(vs[i])
            },
    ensures
        each_record(
            single_write(f, SpecExpr::ident("value"@)),
            f.type_,
            SpecExpr::ident("value"@),
            vs.take(k),
        ) == Some(singles(f.number, raws).take(k)),
    decreases k,
{
    if k == 0 {
    } else {
        lemma_each_record(f, vs, raws, k - 1);
        assert(vs.take(k).drop_last() =~= vs.take(k - 1));
    }
}

/// A repeated field comes back from the wire as it went: what the encoder
/// writes for a list of values of a packable field, packed or value by
/// value, the decoder reads back into that list. The exception is the
/// packed run of a 64-bit kind, which comes back as decimal texts.
pub proof fn lemma_repeated_round_trip(f: SpecField, env: SpecEnv, vs: Seq<Value>)
    requires
        f.is_packable(),
        !f.has_oneof_index(),
        !(f.is_bigint() && env.is_packed(f)),
        all_typed(f.type_, vs),
    ensures
        field_write(f, env, FieldAccessor::ThisMember) is Ok,
        field_case(f, env, FieldAccessor::ThisMember).value is Ok,
        written(
            field_write(f, env, FieldAccessor::ThisMember)->Ok_0,
            f.type_,
            this_field(f),
            Value::List(vs),
        ) is Some,
        decode_field(
            field_case(f, env, FieldAccessor::ThisMember).value->Ok_0,
            f,
            written(
                field_write(f, env, FieldAccessor::ThisMember)->Ok_0,
                f.type_,
                this_field(f),
                Value::List(vs),
            )->Some_0,
            Value::List(Seq::empty()),
        ) == Some(Value::List(vs)),
{
    let t = f.type_;
    let x = this_field(f);
    let raws = Seq::new(
        vs.len(),
        |i: int|
            if f.is_bigint() {
                Value::Decimal(vs[i]->BigInt_0)
            } else {
                on_wire(vs[i])
            },
    );
    assert forall|i: int| 0 <= i < raws.len() implies is_raw(t, #[trigger] raws[i]) && decoded(
        t,
        raws[i],
    ) == vs[i] by {}
    assert(all_decoded(t, raws) =~= vs);
    let test = present_expr(f, env, FieldAccessor::ThisMember)->Ok_0;
    assert(eval_test(test, x, Value::List(vs)) == Some(vs.len() != 0)) by {
        assert(eval_test(is_defined(x), x, Value::List(vs)) == Some(true));
        assert(eval_test(
            SpecExpr::not_eq(SpecExpr::member(x, "length"@), SpecExpr::Num(0)),
            x,
            Value::List(vs),
        ) == Some(vs.len() != 0));
    }
    if vs.len() == 0 {
        assert(vs =~= Seq::<Value>::empty());
    } else if env.is_packed(f) {
        lemma_packed_name_differs("write"@, t);
        assert(all_on_wire(vs) =~= raws);
        lemma_packed_and_unpacked_decode_alike(f, env, raws);
    } else {
        lemma_each_record(f, vs, raws, vs.len() as int);
        assert(vs.take(vs.len() as int) =~= vs);
        lemma_singles_decode(f, env, raws, raws.len() as int);
    }
}

/// The value of the expression that a local of an entry starts with: a
/// literal, `BigInt(n)`, the empty byte array, or `undefined`.
pub open spec fn initial_value(e: SpecExpr) -> Option<Value> {
    match e {
        SpecExpr::Num(n) => Some(Value::Number(n)),
        SpecExpr::Str(s) => Some(Value::Text(s)),
        SpecExpr::Bool(b) => Some(Value::Boolean(b)),
        SpecExpr::Ident(name) => if name == "undefined"@ {
            Some(Value::Undefined)
        } else {
            None
        },
        SpecExpr::Call(callee, args) => if *callee == SpecExpr::ident("BigInt"@) && args.len() == 1
            && args[0] is Num {
            Some(Value::BigInt(args[0]->Num_0))
        } else {
            None
        },
        SpecExpr::New(callee, args) => if args.len() == 0 && (*callee == SpecExpr::ident(
            "Uint8Array"@,
        ) || *callee == SpecExpr::member(SpecExpr::ident("collections"@), "Uint8Array"@)) {
            Some(Value::Bytes(Seq::empty()))
        } else {
            None
        },
        _ => None,
    }
}

/// The kinds of the key and the value of a map.
pub struct EntryKinds {
    pub key: FieldType,
    pub value: FieldType,
}

/// What a statement of an arm makes of the locals `key` and `value`, where
/// the reader stands at the record `rec`: an assignment to one of them
/// gives it the value read as its kind asks.
pub open spec fn run_local_stmt(
    s: SpecStmt,
    kinds: EntryKinds,
    rec: Record,
    cur: (Value, Value),
) -> Option<(Value, Value)> {
    match s {
        SpecStmt::Expr(SpecExpr::Assign(AssignOp::Assign, target, value)) => if *target
            == SpecExpr::ident("key"@) {
            match read_value(*value, kinds.key, rec) {
                Some(k) => Some((k, cur.1)),
                None => None,
            }
        } else if *target == SpecExpr::ident("value"@) {
            match read_value(*value, kinds.value, rec) {
                Some(v) => Some((cur.0, v)),
                None => None,
            }
        } else {
            None
        },
        _ => None,
    }
}

/// What the statements of an arm make of the locals up to the `break`. An
/// arm that ends without one, as the arm for unknown numbers does after
/// it has skipped the field, leaves them as they are; a `throw` ends the
/// decoding without a result.
pub open spec fn run_local_arm(
    stmts: Seq<SpecStmt>,
    kinds: EntryKinds,
    rec: Record,
    cur: (Value, Value),
) -> Option<(Value, Value)>
    decreases stmts.len(),
{
    if stmts.len() == 0 {
        Some(cur)
    } else if stmts[0] is Break {
        Some(cur)
    } else if stmts[0] == SpecStmt::Expr(reader_call("skipField"@)) {
        run_local_arm(stmts.drop_first(), kinds, rec, cur)
    } else {
        match run_local_stmt(stmts[0], kinds, rec, cur) {
            Some(next) => run_local_arm(stmts.drop_first(), kinds, rec, next),
            None => None,
        }
    }
}

/// What the decoding loop of an entry makes of the locals over the records
/// of the entry, in order: each record runs the arm that the `switch`
/// selects for its number.
pub open spec fn run_entry_loop(
    arms: Seq<SpecSwitchCase>,
    kinds: EntryKinds,
    records: Seq<Record>,
    start: (Value, Value),
) -> Option<(Value, Value)>
    decreases records.len(),
{
    if records.len() == 0 {
        Some(start)
    } else {
        match (
            run_entry_loop(arms, kinds, records.drop_last(), start),
            selected_arm(arms, records.last().number()),
        ) {
            (Some(cur), Some(arm)) => run_local_arm(arm.cons, kinds, records.last(), cur),
            _ => None,
        }
    }
}

/// The entries of a map after `key` was set to `value`: the entry under
/// the key is replaced, or a new entry is added behind the others.
pub open spec fn map_set(m: Seq<(Value, Value)>, key: Value, value: Value) -> Seq<(Value, Value)> {
    if exists|i: int| 0 <= i < m.len() && (#[trigger] m[i]).0 == key {
        let i = choose|i: int| 0 <= i < m.len() && (#[trigger] m[i]).0 == key;
        m.update(i, (key, value))
    } else {
        m.push((key, value))
    }
}

/// What the function that reads one entry makes of the map `m`: the locals
/// start with their initial values, the loop runs over the records of
/// the entry, and the entry is set in the map.
pub open spec fn run_entry_body(
    body: Seq<SpecStmt>,
    f: SpecField,
    kinds: EntryKinds,
    records: Seq<Record>,
    m: Seq<(Value, Value)>,
) -> Option<Seq<(Value, Value)>> {
    if body.len() == 4 && body[3] == SpecStmt::Expr(
        this_call(
            f,
            "set"@,
            seq![
                SpecExpr::non_null(SpecExpr::ident("key"@)),
                SpecExpr::non_null(SpecExpr::ident("value"@)),
            ],
        ),
    ) {
        match (body[0], body[1]) {
            (
                SpecStmt::Decl(VarKind::Let, key_name, _, key_init),
                SpecStmt::Decl(VarKind::Let, value_name, _, value_init),
            ) => if key_name == "key"@ && value_name == "value"@ {
                match (initial_value(key_init), initial_value(value_init)) {
                    (Some(k0), Some(v0)) => match run_entry_loop(
                        arms_of(body[2]),
                        kinds,
                        records,
                        (k0, v0),
                    ) {
                        Some((k, v)) => Some(map_set(m, k, v)),
                        None => None,
                    },
                    _ => None,
                }
            } else {
                None
            },
            _ => None,
        }
    } else {
        None
    }
}

/// What the arm of a map field makes of the map `m`, where the reader
/// stands at the record `rec`: `br.readMessage(undefined, () => { ... })`
/// runs the function over the records of the block.
pub open spec fn run_map_arm(
    stmts: Seq<SpecStmt>,
    f: SpecField,
    kinds: EntryKinds,
    rec: Record,
    m: Seq<(Value, Value)>,
) -> Option<Seq<(Value, Value)>> {
    if stmts.len() == 2 && stmts[1] is Break {
        match (stmts[0], rec) {
            (SpecStmt::Expr(SpecExpr::Call(callee, args)), Record::Block(_, records)) => if *callee
                == SpecExpr::member(SpecExpr::ident("br"@), "readMessage"@) && args.len() == 2
                && args[0] == SpecExpr::undefined() {
                match args[1] {
                    SpecExpr::ArrowBlock(params, body) => if params.len() == 0 {
                        run_entry_body(body, f, kinds, records, m)
                    } else {
                        None
                    },
                    _ => None,
                }
            } else {
                None
            },
            _ => None,
        }
    } else {
        None
    }
}

/// What the arm of the map field `f` makes of the map, which starts as
/// `start`, over the records that carry the field's number, in order.
pub open spec fn decode_map(
    arm: SpecSwitchCase,
    f: SpecField,
    kinds: EntryKinds,
    records: Seq<Record>,
    start: Seq<(Value, Value)>,
) -> Option<Seq<(Value, Value)>>
    decreases records.len(),
{
    if records.len() == 0 {
        Some(start)
    } else {
        match decode_map(arm, f, kinds, records.drop_last(), start) {
            Some(m) => if records.last().number() == f.number {
                run_map_arm(arm.cons, f, kinds, records.last(), m)
            } else {
                Some(m)
            },
            None => None,
        }
    }
}

/// The record that the write of one entry puts on the wire:
/// `bw.writeMessage(number, undefined, () => { ... })` a block of what
/// the two statements of the function write for the key and the value.
pub open spec fn entry_record(s: SpecStmt, kinds: EntryKinds, entry: (Value, Value)) -> Option<
    Record,
> {
    match s {
        SpecStmt::Expr(SpecExpr::Call(callee, args)) => if *callee == SpecExpr::member(
            SpecExpr::ident("bw"@),
            "writeMessage"@,
        ) && args.len() == 3 && args[0] is Num && args[1] == SpecExpr::undefined() {
            match args[2] {
                SpecExpr::ArrowBlock(params, body) => if params.len() == 0 && body.len() == 2 {
                    match (
                        written(body[0], kinds.key, SpecExpr::ident("key"@), entry.0),
                        written(body[1], kinds.value, SpecExpr::ident("value"@), entry.1),
                    ) {
                        (Some(k), Some(v)) => Some(Record::Block(args[0]->Num_0, k + v)),
                        _ => None,
                    }
                } else {
                    None
                },
                _ => None,
            }
        } else {
            None
        },
        _ => None,
    }
}

/// The records that the body of the loop over a map puts on the wire, one
/// for each entry in order.
pub open spec fn each_entry(s: SpecStmt, kinds: EntryKinds, m: Seq<(Value, Value)>) -> Option<
    Seq<Record>,
>
    decreases m.len(),
{
    if m.len() == 0 {
        Some(Seq::empty())
    } else {
        match (each_entry(s, kinds, m.drop_last()), entry_record(s, kinds, m.last())) {
            (Some(before), Some(r)) => Some(before.push(r)),
            _ => None,
        }
    }
}

/// The records that the write statement of a map field puts on the wire,
/// where `x` holds the map `m`: none where the test fails, else one
/// block for each entry, `for (const [key, value] of x) ...`.
pub open spec fn written_map(
    w: SpecStmt,
    kinds: EntryKinds,
    x: SpecExpr,
    m: Seq<(Value, Value)>,
) -> Option<Seq<Record>> {
    match w {
        SpecStmt::If(test, body, None) => match eval_test(test, x, Value::Entries(m)) {
            Some(true) => match *body {
                SpecStmt::ForOf(bound, iterable, inner) => if iterable == x && bound
                    == SpecBinding::Pair("key"@, "value"@) {
                    each_entry(*inner, kinds, m)
                } else {
                    None
                },
                _ => None,
            },
            Some(false) => Some(Seq::empty()),
            None => None,
        },
        _ => None,
    }
}

/// A key or a value of a scalar kind or of an enum that has a member:
/// neither repeated nor a member of a oneof group, and without a declared
/// default.
pub open spec fn is_entry_kind(g: SpecField, env: SpecEnv) -> bool {
    &&& is_scalar(g) || (g.is_enum() && env.leading_enum_member(g.type_ref) is Some)
    &&& !g.is_repeated()
    &&& !g.has_oneof_index()
    &&& g.default_value is None
}

/// A map field whose entry holds the key as its field `key` of the number
/// one and the value as its field `value` of the number two, both of
/// scalar kinds or enums.
pub open spec fn is_scalar_map(f: SpecField, env: SpecEnv) -> bool {
    &&& env.is_map(f)
    &&& !f.has_oneof_index()
    &&& env.map_entry(f.type_ref) matches Some(entry) && {
        &&& entry.field[0].name == "key"@
        &&& entry.field[0].number == 1
        &&& is_entry_kind(entry.field[0], env)
        &&& entry.field[1].name == "value"@
        &&& entry.field[1].number == 2
        &&& is_entry_kind(entry.field[1], env)
    }
}

/// The kinds of the key and the value of a map field.
pub open spec fn entry_kinds(f: SpecField, env: SpecEnv) -> EntryKinds {
    let entry = env.map_entry(f.type_ref)->Some_0;
    EntryKinds { key: entry.field[0].type_, value: entry.field[1].type_ }
}

/// What stands on the wire for a value of the kind `t`: the decimal text
/// of a 64-bit integer, a number for a boolean, any other value itself.
pub open spec fn wire_of(t: FieldType, v: Value) -> Value {
    match v {
        Value::BigInt(n) => Value::Decimal(n),
        _ => on_wire(v),
    }
}

/// Whether the encoder leaves a key or a value out of its entry: in the
/// third dialect, where it is the value that the kind has while unset.
pub open spec fn is_elided(g: SpecField, env: SpecEnv, v: Value) -> bool {
    env.syntax == Syntax::Proto3 && if g.is_bytes() {
        v.count() == Some(0int)
    } else {
        implicit_default(g, env) == Some(v)
    }
}

/// What the encoder writes for a key or a value: nothing where it is left
/// out, else the one value under its tag.
pub open spec fn entry_field_records(g: SpecField, env: SpecEnv, v: Value) -> Seq<Record> {
    if is_elided(g, env, v) {
        Seq::empty()
    } else {
        seq![Record::Single(g.number, wire_of(g.type_, v))]
    }
}

/// The names of the locals and of `undefined` differ.
proof fn lemma_local_names()
    ensures
        "key"@ != "value"@,
        "key"@ != "undefined"@,
        "value"@ != "undefined"@,
        "key"@.len() == 3,
        "value"@.len() == 5,
{
    reveal_strlit("key");
    reveal_strlit("value");
    reveal_strlit("undefined");
    assert("key"@.len() == 3);
    assert("value"@.len() == 5);
}

/// What the encoder writes for a key or a value of a scalar kind.
proof fn lemma_entry_field_written(g: SpecField, env: SpecEnv, v: Value)
    requires
        is_entry_kind(g, env),
        g.name == "key"@ || g.name == "value"@,
        is_typed(g.type_, v),
    ensures
        plain_write(g, env, FieldAccessor::BareLocal) is Ok,
        written(
            plain_write(g, env, FieldAccessor::BareLocal)->Ok_0,
            g.type_,
            SpecExpr::ident(g.name),
            v,
        ) == Some(entry_field_records(g, env, v)),
{
    lemma_local_names();
    reveal_strlit("");
    assert(""@ =~= Seq::<char>::empty());
    let x = SpecExpr::ident(g.name);
    assert(eval_test(is_defined(x), x, v) == Some(true));
    if env.syntax == Syntax::Proto3 {
        if g.is_bytes() {
            let n = v->Bytes_0.len() as int;
            assert(eval_test(
                SpecExpr::not_eq(SpecExpr::member(x, "length"@), SpecExpr::Num(0)),
                x,
                v,
            ) == Some(n != 0));
        } else {
            let d = proto3_default_of(g, env)->Ok_0->Some_0;
            let dv = implicit_default(g, env)->Some_0;
            assert(eval_test(SpecExpr::not_eq(x, d), x, v) == Some(v != dv));
        }
    }
}

/// What the locals of an entry start with, for a key or a value of a
/// scalar kind: a value of the kind, and the one that the encoder leaves
/// out.
proof fn lemma_entry_field_initial(g: SpecField, env: SpecEnv, v: Value)
    requires
        is_entry_kind(g, env),
        is_typed(g.type_, v),
    ensures
        target_type(g, env).value is Ok,
        default_value(g, env, true).value is Ok,
        initial_value(default_value(g, env, true).value->Ok_0) is Some,
        is_elided(g, env, v) ==> initial_value(default_value(g, env, true).value->Ok_0) == Some(v),
{
    if g.is_bytes() {
        if is_elided(g, env, v) {
            assert(v->Bytes_0 =~= Seq::<u8>::empty());
        }
    }
}

/// What the arm of a key or a value of a scalar kind makes of the locals
/// on the record that the encoder wrote for it.
proof fn lemma_entry_field_read(
    g: SpecField,
    env: SpecEnv,
    kinds: EntryKinds,
    v: Value,
    cur: (Value, Value),
)
    requires
        is_entry_kind(g, env),
        is_typed(g.type_, v),
        (g.name == "key"@ && kinds.key == g.type_) || (g.name == "value"@ && kinds.value
            == g.type_),
    ensures
        plain_case(g, env, FieldAccessor::BareLocal).value is Ok,
        plain_case(g, env, FieldAccessor::BareLocal).value->Ok_0.test == Some(
            SpecExpr::Num(g.number),
        ),
        run_local_arm(
            plain_case(g, env, FieldAccessor::BareLocal).value->Ok_0.cons,
            kinds,
            Record::Single(g.number, wire_of(g.type_, v)),
            cur,
        ) == Some(
            if g.name == "key"@ {
                (v, cur.1)
            } else {
                (cur.0, v)
            },
        ),
{
    lemma_local_names();
    lemma_packed_name_differs("read"@, g.type_);
    reveal_strlit("map");
    reveal_strlit("from");
    reveal_strlit("BigInt");
    reveal_strlit("br");
    reveal_strlit("skipField");
    reveal_with_fuel(run_local_arm, 3);
    let t = g.type_;
    let x = SpecExpr::ident(g.name);
    let rec = Record::Single(g.number, wire_of(t, v));
    let one = reader_call(rw_name("read"@, false, t));
    let read = primitive_read(g, false);
    assert(!env.is_map(g));
    assert(plain_read(g, env, FieldAccessor::BareLocal, false).value == Ok::<SpecExpr, GenError>(
        read,
    ));
    let stmts = case_stmts(g, env, FieldAccessor::BareLocal, read).value->Ok_0;
    assert(stmts == plain_case(g, env, FieldAccessor::BareLocal).value->Ok_0.cons);
    assert(read_value(one, t, rec) == Some(wire_of(t, v)));
    assert(read_value(read, t, rec) == Some(v));
    assert(read_value(wrapped_read(g, env, read), t, rec) == Some(v));
    let set = SpecStmt::Expr(SpecExpr::assign(AssignOp::Assign, x, wrapped_read(g, env, read)));
    assert(stmts =~= seq![set, SpecStmt::Break]);
    let next = if g.name == "key"@ {
        (v, cur.1)
    } else {
        (cur.0, v)
    };
    assert(run_local_stmt(set, kinds, rec, cur) == Some(next));
    assert(set != SpecStmt::Expr(reader_call("skipField"@)));
    assert(stmts.drop_first()[0] is Break);
    assert(run_local_arm(stmts.drop_first(), kinds, rec, next) == Some(next));
    assert(run_local_arm(stmts, kinds, rec, cur) == Some(next));
}

/// The results of a step on two items that both succeed.
proof fn lemma_each_two<A, T>(items: Seq<A>, step: spec_fn(A) -> Gen<T>)
    requires
        items.len() == 2,
        step(items[0]).value is Ok,
        step(items[1]).value is Ok,
    ensures
        each(items, step).value == Ok::<Seq<T>, GenError>(
            seq![step(items[0]).value->Ok_0, step(items[1]).value->Ok_0],
        ),
{
    lemma_each_step(items, step, 0);
    assert(Seq::<T>::empty().push(step(items[0]).value->Ok_0).push(step(items[1]).value->Ok_0)
        =~= seq![step(items[0]).value->Ok_0, step(items[1]).value->Ok_0]);
}

/// The statement that writes one entry of a scalar map, and the arm that
/// reads one.
pub open spec fn entry_writer(f: SpecField, env: SpecEnv) -> SpecStmt {
    let entry = env.map_entry(f.type_ref)->Some_0;
    entry_write(
        f,
        plain_write(entry.field[0], env, FieldAccessor::BareLocal)->Ok_0,
        plain_write(entry.field[1], env, FieldAccessor::BareLocal)->Ok_0,
    )
}

/// The shape of what is generated for a scalar map: the write statement is
/// a loop over the entries behind the test for the size, and the arm
/// reads an entry through the function whose body declares the locals,
/// runs the loop over the arms of the key and the value, and sets the
/// entry.
proof fn lemma_scalar_map_shape(f: SpecField, env: SpecEnv)
    requires
        is_scalar_map(f, env),
    ensures
        field_write(f, env, FieldAccessor::ThisMember) == Ok::<SpecStmt, GenError>(
            SpecStmt::if_then(
                is_not_empty(this_field(f), "size"@),
                SpecStmt::for_of(
                    SpecBinding::Pair("key"@, "value"@),
                    this_field(f),
                    entry_writer(f, env),
                ),
            ),
        ),
        field_case(f, env, FieldAccessor::ThisMember).value is Ok,
        ({
            let entry = env.map_entry(f.type_ref)->Some_0;
            let key = entry.field[0];
            let value = entry.field[1];
            let arm = field_case(f, env, FieldAccessor::ThisMember).value->Ok_0;
            &&& plain_case(key, env, FieldAccessor::BareLocal).value is Ok
            &&& plain_case(value, env, FieldAccessor::BareLocal).value is Ok
            &&& arm.cons == seq![
                SpecStmt::Expr(
                    SpecExpr::call(
                        SpecExpr::member(SpecExpr::ident("br"@), "readMessage"@),
                        seq![
                            SpecExpr::undefined(),
                            SpecExpr::ArrowBlock(
                                Seq::empty(),
                                map_entry_body(
                                    f,
                                    target_type(key, env).value->Ok_0,
                                    default_value(key, env, true).value->Ok_0,
                                    target_type(value, env).value->Ok_0,
                                    default_value(value, env, true).value->Ok_0,
                                    seq![
                                        plain_case(key, env, FieldAccessor::BareLocal).value->Ok_0,
                                        plain_case(
                                            value,
                                            env,
                                            FieldAccessor::BareLocal,
                                        ).value->Ok_0,
                                    ],
                                ),
                            ),
                        ],
                    ),
                ),
                SpecStmt::Break,
            ]
        }),
{
    let entry = env.map_entry(f.type_ref)->Some_0;
    let key = entry.field[0];
    let value = entry.field[1];
    let sample = |g: SpecField|
        if g.is_bigint() {
            Value::BigInt(0)
        } else if g.is_number() {
            Value::Number(0)
        } else if g.is_boolean() {
            Value::Boolean(false)
        } else if g.is_string() {
            Value::Text(Seq::empty())
        } else if g.is_bytes() {
            Value::Bytes(Seq::empty())
        } else {
            Value::Number(0)
        };
    lemma_entry_field_written(key, env, sample(key));
    lemma_entry_field_written(value, env, sample(value));
    lemma_entry_field_initial(key, env, sample(key));
    lemma_entry_field_initial(value, env, sample(value));
    let kinds = entry_kinds(f, env);
    lemma_entry_field_read(key, env, kinds, sample(key), (Value::Undefined, Value::Undefined));
    lemma_entry_field_read(value, env, kinds, sample(value), (Value::Undefined, Value::Undefined));
    assert(present_expr(f, env, FieldAccessor::ThisMember) == Ok::<SpecExpr, GenError>(
        is_not_empty(this_field(f), "size"@),
    ));
    let step = plain_case_fn(env, FieldAccessor::BareLocal);
    assert(entry.field.len() == 2);
    assert(step(entry.field[0]) == plain_case(key, env, FieldAccessor::BareLocal));
    assert(step(entry.field[1]) == plain_case(value, env, FieldAccessor::BareLocal));
    lemma_each_two(entry.field, step);
    assert(plain_cases(entry.field, env, FieldAccessor::BareLocal).value == Ok::<
        Seq<SpecSwitchCase>,
        GenError,
    >(
        seq![
            plain_case(key, env, FieldAccessor::BareLocal).value->Ok_0,
            plain_case(value, env, FieldAccessor::BareLocal).value->Ok_0,
        ],
    ));
    assert(map_read(f, env).value is Ok);
    assert(!f.is_bytes());
}

/// The block that the encoder writes for one entry of a scalar map.
pub open spec fn entry_block(f: SpecField, env: SpecEnv, entry: (Value, Value)) -> Record {
    let e = env.map_entry(f.type_ref)->Some_0;
    Record::Block(
        f.number,
        entry_field_records(e.field[0], env, entry.0) + entry_field_records(
            e.field[1],
            env,
            entry.1,
        ),
    )
}

/// Whether an entry holds a key and a value of the kinds of the map.
pub open spec fn is_typed_entry(kinds: EntryKinds, entry: (Value, Value)) -> bool {
    is_typed(kinds.key, entry.0) && is_typed(kinds.value, entry.1)
}

/// One entry of a scalar map comes back from the wire as it went: the
/// encoder writes it as one block, and the arm of the map sets the entry
/// in the map from that block.
proof fn lemma_entry_round_trip(
    f: SpecField,
    env: SpecEnv,
    entry: (Value, Value),
    m: Seq<(Value, Value)>,
)
    requires
        is_scalar_map(f, env),
        is_typed_entry(entry_kinds(f, env), entry),
    ensures
        entry_record(entry_writer(f, env), entry_kinds(f, env), entry) == Some(
            entry_block(f, env, entry),
        ),
        field_case(f, env, FieldAccessor::ThisMember).value is Ok,
        run_map_arm(
            field_case(f, env, FieldAccessor::ThisMember).value->Ok_0.cons,
            f,
            entry_kinds(f, env),
            entry_block(f, env, entry),
            m,
        ) == Some(map_set(m, entry.0, entry.1)),
{
    let e = env.map_entry(f.type_ref)->Some_0;
    let key = e.field[0];
    let value = e.field[1];
    let kinds = entry_kinds(f, env);
    let (a, b) = entry;
    lemma_scalar_map_shape(f, env);
    lemma_local_names();
    lemma_entry_field_written(key, env, a);
    lemma_entry_field_written(value, env, b);
    lemma_entry_field_initial(key, env, a);
    lemma_entry_field_initial(value, env, b);
    let k0 = initial_value(default_value(key, env, true).value->Ok_0)->Some_0;
    let v0 = initial_value(default_value(value, env, true).value->Ok_0)->Some_0;
    lemma_entry_field_read(key, env, kinds, a, (k0, v0));
    lemma_entry_field_read(value, env, kinds, b, (a, v0));
    // which arm a record runs
    reveal_with_fuel(matching_arm, 3);
    // the loop over the records of the block
    reveal_with_fuel(run_entry_loop, 3);
}

/// The entries of a map have different keys.
pub open spec fn has_distinct_keys(m: Seq<(Value, Value)>) -> bool {
    forall|i: int, j: int|
        #![trigger m[i], m[j]]
        0 <= i < m.len() && 0 <= j < m.len() && m[i].0 == m[j].0 ==> i == j
}

/// The blocks that the encoder writes for the entries of a map, in order.
pub open spec fn entry_blocks(f: SpecField, env: SpecEnv, m: Seq<(Value, Value)>) -> Seq<Record> {
    Seq::new(m.len(), |i: int| entry_block(f, env, m[i]))
}

/// The first `k` entries of a scalar map go on the wire as their blocks,
/// and come back from them.
proof fn lemma_entries_round_trip(f: SpecField, env: SpecEnv, m: Seq<(Value, Value)>, k: int)
    requires
        is_scalar_map(f, env),
        0 <= k <= m.len(),
        forall|i: int| 0 <= i < m.len() ==> is_typed_entry(entry_kinds(f, env), #[trigger] m[i]),
        has_distinct_keys(m),
    ensures
        each_entry(entry_writer(f, env), entry_kinds(f, env), m.take(k)) == Some(
            entry_blocks(f, env, m).take(k),
        ),
        field_case(f, env, FieldAccessor::ThisMember).value is Ok,
        decode_map(
            field_case(f, env, FieldAccessor::ThisMember).value->Ok_0,
            f,
            entry_kinds(f, env),
            entry_blocks(f, env, m).take(k),
            Seq::empty(),
        ) == Some(m.take(k)),
    decreases k,
{
    let blocks = entry_blocks(f, env, m);
    lemma_scalar_map_shape(f, env);
    if k > 0 {
        lemma_entries_round_trip(f, env, m, k - 1);
        let before = m.take(k - 1);
        let entry = m[k - 1];
        lemma_entry_round_trip(f, env, entry, before);
        assert(m.take(k).drop_last() =~= before);
        assert(blocks.take(k).drop_last() =~= blocks.take(k - 1));
        // the key is new, so the entry is added behind the others
        assert(!(exists|i: int| 0 <= i < before.len() && (#[trigger] before[i]).0 == entry.0));
    }
}

/// A map comes back from the wire as it went: what the encoder writes for
/// the entries of a scalar map, the decoder reads back into a map of
/// those entries.
pub proof fn lemma_map_round_trip(f: SpecField, env: SpecEnv, m: Seq<(Value, Value)>)
    requires
        is_scalar_map(f, env),
        forall|i: int| 0 <= i < m.len() ==> is_typed_entry(entry_kinds(f, env), #[trigger] m[i]),
        has_distinct_keys(m),
    ensures
        field_write(f, env, FieldAccessor::ThisMember) is Ok,
        field_case(f, env, FieldAccessor::ThisMember).value is Ok,
        written_map(
            field_write(f, env, FieldAccessor::ThisMember)->Ok_0,
            entry_kinds(f, env),
            this_field(f),
            m,
        ) is Some,
        decode_map(
            field_case(f, env, FieldAccessor::ThisMember).value->Ok_0,
            f,
            entry_kinds(f, env),
            written_map(
                field_write(f, env, FieldAccessor::ThisMember)->Ok_0,
                entry_kinds(f, env),
                this_field(f),
                m,
            )->Some_0,
            Seq::empty(),
        ) == Some(m),
{
    let x = this_field(f);
    let v = Value::Entries(m);
    lemma_entries_round_trip(f, env, m, m.len() as int);
    assert(m.take(m.len() as int) =~= m);
    let test = is_not_empty(x, "size"@);
    assert(eval_test(test, x, v) == Some(m.len() != 0)) by {
        assert(eval_test(is_defined(x), x, v) == Some(true));
        assert(eval_test(
            SpecExpr::not_eq(SpecExpr::member(x, "size"@), SpecExpr::Num(0)),
            x,
            v,
        ) == Some(m.len() != 0));
    }
}

} // verus!
