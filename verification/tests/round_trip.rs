use protoc_gen_ts::ast::{AssignOp, BinaryOp, Binding, Expr, Stmt, SwitchCase};
use protoc_gen_ts::common::field::FieldAccessor;
use protoc_gen_ts::context::{Context, Descriptor, Symbol, SymbolTable, Syntax};
use protoc_gen_ts::descriptor::{
    DescriptorProto, EnumDescriptorProto, EnumValueDescriptorProto, FieldDescriptorProto,
    FieldType, Label,
};
use protoc_gen_ts::options::Options;
use protoc_gen_ts::runtime::google_protobuf::GooglePBRuntime;
use std::collections::HashMap;

/// What a property or a local holds while generated code runs.
#[derive(Clone, Debug, PartialEq)]
enum Value {
    Undefined,
    Number(i64),
    BigInt(i128),
    /// The decimal text of an integer.
    Decimal(i128),
    Text(String),
    Boolean(bool),
    Bytes(Vec<u8>),
    List(Vec<Value>),
    Entries(Vec<(Value, Value)>),
}

/// What stands on the wire under one tag.
#[derive(Clone, Debug, PartialEq)]
enum Record {
    Single(i64, Value),
    Run(i64, Vec<Value>),
    Block(i64, Vec<Record>),
}

fn number_of(r: &Record) -> i64 {
    match r {
        Record::Single(n, _) | Record::Run(n, _) | Record::Block(n, _) => *n,
    }
}

/// The properties of `this` and the locals in scope.
#[derive(Clone, Debug, Default)]
struct Scope {
    this: HashMap<String, Value>,
    locals: HashMap<String, Value>,
}

/// The reader hands out a number for a boolean.
fn on_wire(v: Value) -> Value {
    match v {
        Value::Boolean(b) => Value::Number(b as i64),
        v => v,
    }
}

fn count(v: &Value) -> Value {
    match v {
        Value::Text(s) => Value::Number(s.chars().count() as i64),
        Value::Bytes(b) => Value::Number(b.len() as i64),
        Value::List(l) => Value::Number(l.len() as i64),
        Value::Entries(m) => Value::Number(m.len() as i64),
        other => panic!("no size: {:?}", other),
    }
}

/// The value of an expression; `rec` is the record that the reader stands at.
fn eval(e: &Expr, scope: &Scope, rec: Option<&Record>) -> Value {
    match e {
        Expr::Num(n) => Value::Number(*n),
        Expr::Str(s) => Value::Text(s.clone()),
        Expr::Bool(b) => Value::Boolean(*b),
        Expr::Array(elems) => Value::List(elems.iter().map(|e| eval(e, scope, rec)).collect()),
        Expr::Ident(name) if name == "undefined" => Value::Undefined,
        Expr::Ident(name) => scope.locals.get(name).cloned().unwrap_or(Value::Undefined),
        Expr::NonNull(inner) => eval(inner, scope, rec),
        Expr::Member(obj, prop) => match &**obj {
            Expr::This => scope.this.get(prop).cloned().unwrap_or(Value::Undefined),
            obj if prop == "length" || prop == "size" => count(&eval(obj, scope, rec)),
            other => panic!("no member {} of {:?}", prop, other),
        },
        Expr::New(callee, args) => match (&**callee, args.len()) {
            (Expr::Ident(name), 0) if name == "Uint8Array" => Value::Bytes(vec![]),
            (Expr::Ident(name), 0) if name == "Map" => Value::Entries(vec![]),
            other => panic!("no constructor {:?}", other),
        },
        Expr::Bin(BinaryOp::NotEqEq, left, right) => {
            Value::Boolean(eval(left, scope, rec) != eval(right, scope, rec))
        }
        Expr::Bin(BinaryOp::LogicalAnd, left, right) => match eval(left, scope, rec) {
            Value::Boolean(true) => eval(right, scope, rec),
            other => other,
        },
        Expr::Bin(BinaryOp::ZeroFillRShift, left, right) => {
            match (eval(left, scope, rec), eval(right, scope, rec)) {
                (Value::Number(n), Value::Number(0)) => Value::Number(n.rem_euclid(1 << 32)),
                other => panic!("no shift of {:?}", other),
            }
        }
        Expr::Not(inner) => match eval(inner, scope, rec) {
            Value::Boolean(b) => Value::Boolean(!b),
            other => panic!("no negation of {:?}", other),
        },
        Expr::Call(callee, args) => match &**callee {
            Expr::Ident(name) if name == "BigInt" => match eval(&args[0], scope, rec) {
                Value::Number(n) => Value::BigInt(n as i128),
                Value::Decimal(n) => Value::BigInt(n),
                other => panic!("no integer: {:?}", other),
            },
            Expr::Member(obj, method) => match (&**obj, method.as_str()) {
                (Expr::Ident(br), "isDelimited") if br == "br" => {
                    Value::Boolean(matches!(rec, Some(Record::Run(_, _) | Record::Block(_, _))))
                }
                (Expr::Ident(br), name) if br == "br" && name.starts_with("readPacked") => {
                    match rec {
                        Some(Record::Run(_, values)) => Value::List(values.clone()),
                        other => panic!("no packed run: {:?}", other),
                    }
                }
                (Expr::Ident(br), name) if br == "br" && name.starts_with("read") => match rec {
                    Some(Record::Single(_, value)) => value.clone(),
                    other => panic!("no single value: {:?}", other),
                },
                (obj, "toString") => match eval(obj, scope, rec) {
                    Value::BigInt(n) => Value::Decimal(n),
                    other => panic!("no text of {:?}", other),
                },
                (obj, "map") => {
                    let Expr::Arrow(params, body) = &args[0] else { panic!("no function") };
                    let Value::List(values) = eval(obj, scope, rec) else { panic!("no list") };
                    Value::List(
                        values
                            .into_iter()
                            .map(|v| {
                                let mut inner = scope.clone();
                                inner.locals.insert(params[0].name.clone(), v);
                                eval(body, &inner, rec)
                            })
                            .collect(),
                    )
                }
                other => panic!("no method {:?}", other),
            },
            other => panic!("no call of {:?}", other),
        },
        other => panic!("no value of {:?}", other),
    }
}

/// Runs statements of the encoder, and gathers what they write.
fn write(stmts: &[Stmt], scope: &Scope, out: &mut Vec<Record>) {
    for s in stmts {
        match s {
            Stmt::If(test, body, None) => {
                if eval(test, scope, None) == Value::Boolean(true) {
                    write(std::slice::from_ref(&**body), scope, out);
                }
            }
            Stmt::ForOf(Binding::Name(name), iterable, body) => {
                let Value::List(values) = eval(iterable, scope, None) else { panic!("no list") };
                for v in values {
                    let mut inner = scope.clone();
                    inner.locals.insert(name.clone(), v);
                    write(std::slice::from_ref(&**body), &inner, out);
                }
            }
            Stmt::ForOf(Binding::Pair(key, value), iterable, body) => {
                let Value::Entries(entries) = eval(iterable, scope, None) else { panic!("no map") };
                for (k, v) in entries {
                    let mut inner = scope.clone();
                    inner.locals.insert(key.clone(), k);
                    inner.locals.insert(value.clone(), v);
                    write(std::slice::from_ref(&**body), &inner, out);
                }
            }
            Stmt::Expr(Expr::Call(callee, args)) => {
                let Expr::Member(obj, method) = &**callee else { panic!("no method") };
                assert_eq!(**obj, Expr::Ident("bw".to_string()));
                let Expr::Num(number) = args[0] else { panic!("no number") };
                if method == "writeMessage" {
                    let Expr::ArrowBlock(_, body) = &args[2] else { panic!("no function") };
                    let mut inner = vec![];
                    write(body, scope, &mut inner);
                    out.push(Record::Block(number, inner));
                } else if method.starts_with("writePacked") {
                    let Value::List(values) = eval(&args[1], scope, None) else {
                        panic!("no list")
                    };
                    out.push(Record::Run(number, values.into_iter().map(on_wire).collect()));
                } else if method.starts_with("write") {
                    out.push(Record::Single(number, on_wire(eval(&args[1], scope, None))));
                } else {
                    panic!("no writer method {}", method);
                }
            }
            other => panic!("no write: {:?}", other),
        }
    }
}

fn store(target: &Expr, value: Value, scope: &mut Scope) {
    match target {
        Expr::Ident(name) => {
            scope.locals.insert(name.clone(), value);
        }
        Expr::Member(obj, prop) if **obj == Expr::This => {
            scope.this.insert(prop.clone(), value);
        }
        other => panic!("no target: {:?}", other),
    }
}

/// Runs the statements of an arm or of a function body on one record.
/// `Ok(false)` says that the statements ended in a `break`.
fn run(stmts: &[Stmt], scope: &mut Scope, rec: &Record) -> Result<bool, String> {
    for s in stmts {
        match s {
            Stmt::Break => return Ok(false),
            Stmt::Throw(_) => return Err("thrown".to_string()),
            Stmt::Decl(_, name, _, init) => {
                let v = eval(init, scope, Some(rec));
                scope.locals.insert(name.clone(), v);
            }
            Stmt::If(test, cons, Some(alt)) => {
                let branch = if eval(test, scope, Some(rec)) == Value::Boolean(true) {
                    cons
                } else {
                    alt
                };
                run(std::slice::from_ref(&**branch), scope, rec)?;
            }
            Stmt::While(_, _) => {
                let Record::Block(_, records) = rec else { panic!("no block") };
                decode(s, scope, records)?;
            }
            Stmt::Expr(Expr::Assign(AssignOp::Assign, target, value)) => {
                let v = eval(value, scope, Some(rec));
                store(target, v, scope);
            }
            Stmt::Expr(Expr::Call(callee, args)) => match &**callee {
                Expr::OptMember(obj, method) => {
                    let held = eval(obj, scope, Some(rec));
                    let updated = match (held, method.as_str()) {
                        (Value::Undefined, _) => Value::Undefined,
                        (Value::List(mut l), "push") => {
                            l.push(eval(&args[0], scope, Some(rec)));
                            Value::List(l)
                        }
                        (Value::Entries(mut m), "set") => {
                            let k = eval(&args[0], scope, Some(rec));
                            let v = eval(&args[1], scope, Some(rec));
                            match m.iter_mut().find(|(held, _)| *held == k) {
                                Some(entry) => entry.1 = v,
                                None => m.push((k, v)),
                            }
                            Value::Entries(m)
                        }
                        other => panic!("no method {:?}", other),
                    };
                    store(obj, updated, scope);
                }
                Expr::Member(obj, method) if **obj == Expr::Ident("br".to_string()) => {
                    match method.as_str() {
                        "skipField" => {}
                        "readMessage" => {
                            let Expr::ArrowBlock(_, body) = &args[1] else { panic!("no function") };
                            let mut inner = Scope { this: scope.this.clone(), ..Scope::default() };
                            run(body, &mut inner, rec)?;
                            scope.this = inner.this;
                        }
                        other => panic!("no reader method {}", other),
                    }
                }
                other => panic!("no call: {:?}", other),
            },
            other => panic!("no statement: {:?}", other),
        }
    }
    Ok(true)
}

/// Runs the decoding loop over the records.
fn decode(decoder: &Stmt, scope: &mut Scope, records: &[Record]) -> Result<(), String> {
    let Stmt::While(_, body) = decoder else { panic!("no loop") };
    let Stmt::Block(stmts) = &**body else { panic!("no block") };
    let Stmt::Switch(_, arms) = &stmts[0] else { panic!("no switch") };
    for rec in records {
        let wanted = Some(Expr::Num(number_of(rec)));
        let arm: &SwitchCase = arms
            .iter()
            .find(|a| a.test == wanted)
            .or_else(|| arms.iter().find(|a| a.test.is_none()))
            .expect("no arm");
        run(&arm.cons, scope, rec)?;
    }
    Ok(())
}

fn field(name: &str, number: i32, label: Label, type_: FieldType) -> FieldDescriptorProto {
    FieldDescriptorProto {
        name: name.to_string(),
        number,
        label,
        type_,
        type_ref: String::new(),
        default_value: None,
        oneof_index: None,
        proto3_optional: false,
        packed: None,
    }
}

fn message(name: &str, fields: Vec<FieldDescriptorProto>, map_entry: bool) -> DescriptorProto {
    DescriptorProto {
        name: name.to_string(),
        field: fields,
        nested_type: vec![],
        enum_type: vec![],
        map_entry,
    }
}

/// Encodes the properties with the generated encoder of `m`.
fn encoded(m: &DescriptorProto, ctx: &Context, this: &[(&str, Value)]) -> Vec<Record> {
    let runtime = GooglePBRuntime::new();
    let stmts = runtime.serialize_stmts(ctx, m, FieldAccessor::ThisMember).unwrap();
    let scope = Scope {
        this: this.iter().map(|(n, v)| (n.to_string(), v.clone())).collect(),
        ..Scope::default()
    };
    let mut out = vec![];
    write(&stmts, &scope, &mut out);
    out
}

/// Decodes the records with the generated decoder of `m` into properties
/// that start as `start`.
fn decoded(
    m: &DescriptorProto,
    ctx: &mut Context,
    start: &[(&str, Value)],
    records: &[Record],
) -> Result<HashMap<String, Value>, String> {
    let runtime = GooglePBRuntime::new();
    let decoder = runtime.deserialize_stmt(ctx, m, FieldAccessor::ThisMember, true).unwrap();
    let mut scope = Scope {
        this: start.iter().map(|(n, v)| (n.to_string(), v.clone())).collect(),
        ..Scope::default()
    };
    decode(&decoder, &mut scope, records)?;
    Ok(scope.this)
}

fn numbers(ns: &[i64]) -> Value {
    Value::List(ns.iter().map(|n| Value::Number(*n)).collect())
}

#[test]
fn packed_and_unpacked_runs_decode_to_the_same_list() {
    let table = SymbolTable::new();
    let options = Options::new();
    for syntax in [Syntax::Proto2, Syntax::Proto3] {
        let mut ctx = Context::new(&options, &table, syntax);
        let m = message(
            "M",
            vec![
                field("n", 1, Label::Repeated, FieldType::Sint32),
                field("u", 2, Label::Repeated, FieldType::Uint32),
                field("b", 3, Label::Repeated, FieldType::Bool),
            ],
            false,
        );
        let start = [
            ("n", Value::List(vec![])),
            ("u", Value::List(vec![])),
            ("b", Value::List(vec![])),
        ];
        let raw = [Value::Number(3), Value::Number(0), Value::Number(1)];
        let expected_numbers = numbers(&[3, 0, 1]);
        let expected_flags =
            Value::List(vec![Value::Boolean(true), Value::Boolean(false), Value::Boolean(true)]);
        for number in 1..=3i64 {
            let packed = vec![Record::Run(number, raw.to_vec())];
            let unpacked: Vec<Record> =
                raw.iter().map(|v| Record::Single(number, v.clone())).collect();
            let from_packed = decoded(&m, &mut ctx, &start, &packed).unwrap();
            let from_unpacked = decoded(&m, &mut ctx, &start, &unpacked).unwrap();
            assert_eq!(from_packed, from_unpacked);
            let name = ["n", "u", "b"][number as usize - 1];
            let expected = if name == "b" { &expected_flags } else { &expected_numbers };
            assert_eq!(&from_packed[name], expected);
        }
    }
}

#[test]
fn a_repeated_field_comes_back_as_it_went() {
    let table = SymbolTable::new();
    let options = Options::new();
    for syntax in [Syntax::Proto2, Syntax::Proto3] {
        let mut ctx = Context::new(&options, &table, syntax);
        let m = message(
            "M",
            vec![
                field("n", 1, Label::Repeated, FieldType::Int32),
                field("b", 2, Label::Repeated, FieldType::Bool),
                field("s", 3, Label::Repeated, FieldType::String),
            ],
            false,
        );
        let this = [
            ("n", numbers(&[5, 0, -7])),
            ("b", Value::List(vec![Value::Boolean(false), Value::Boolean(true)])),
            ("s", Value::List(vec![Value::Text("".into()), Value::Text("x".into())])),
        ];
        let records = encoded(&m, &ctx, &this);
        if syntax == Syntax::Proto3 {
            assert_eq!(records.len(), 4);
            assert!(matches!(records[0], Record::Run(1, _)));
            assert!(matches!(records[1], Record::Run(2, _)));
        } else {
            assert_eq!(records.len(), 7);
            assert!(records.iter().all(|r| matches!(r, Record::Single(_, _))));
        }
        let start = [
            ("n", Value::List(vec![])),
            ("b", Value::List(vec![])),
            ("s", Value::List(vec![])),
        ];
        let back = decoded(&m, &mut ctx, &start, &records).unwrap();
        for (name, value) in &this {
            assert_eq!(&back[*name], value);
        }
    }
}

#[test]
fn an_unpacked_run_of_64_bit_integers_comes_back_as_it_went() {
    let table = SymbolTable::new();
    let options = Options::new();
    let mut ctx = Context::new(&options, &table, Syntax::Proto2);
    let m = message("M", vec![field("big", 1, Label::Repeated, FieldType::Sint64)], false);
    let this = [("big", Value::List(vec![Value::BigInt(-1), Value::BigInt(1 << 70)]))];
    let records = encoded(&m, &ctx, &this);
    assert_eq!(
        records,
        vec![Record::Single(1, Value::Decimal(-1)), Record::Single(1, Value::Decimal(1 << 70))]
    );
    let back = decoded(&m, &mut ctx, &[("big", Value::List(vec![]))], &records).unwrap();
    assert_eq!(back["big"], this[0].1);
    // a packed run of them comes back as the texts that stand on the wire
    let mut ctx = Context::new(&options, &table, Syntax::Proto3);
    let records = encoded(&m, &ctx, &this);
    let back = decoded(&m, &mut ctx, &[("big", Value::List(vec![]))], &records).unwrap();
    assert_eq!(back["big"], Value::List(vec![Value::Decimal(-1), Value::Decimal(1 << 70)]));
}

#[test]
fn a_map_comes_back_as_it_went() {
    let entry = message(
        "Entry",
        vec![
            field("key", 1, Label::Optional, FieldType::String),
            field("value", 2, Label::Optional, FieldType::Int64),
        ],
        true,
    );
    let flags = message(
        "Flags",
        vec![
            field("key", 1, Label::Optional, FieldType::Uint32),
            field("value", 2, Label::Optional, FieldType::Bool),
        ],
        true,
    );
    let colors = message(
        "Colors",
        vec![
            field("key", 1, Label::Optional, FieldType::Bool),
            FieldDescriptorProto {
                type_ref: ".Color".to_string(),
                ..field("value", 2, Label::Optional, FieldType::Enum)
            },
        ],
        true,
    );
    let color = EnumDescriptorProto {
        name: "Color".to_string(),
        value: vec![EnumValueDescriptorProto { name: "RED".to_string(), number: 3 }],
    };
    let mut table = SymbolTable::new();
    for (name, d) in [(".Entry", &entry), (".Flags", &flags), (".Colors", &colors)] {
        table.register(Symbol {
            type_ref: name.to_string(),
            file: "a.proto".to_string(),
            ident: name[1..].to_string(),
            descriptor: Descriptor::Message(d),
        });
    }
    table.register(Symbol {
        type_ref: ".Color".to_string(),
        file: "a.proto".to_string(),
        ident: "Color".to_string(),
        descriptor: Descriptor::Enum(&color),
    });
    let options = Options::new();
    let map = |name: &str, number: i32, type_ref: &str| FieldDescriptorProto {
        type_ref: type_ref.to_string(),
        ..field(name, number, Label::Repeated, FieldType::Message)
    };
    let m = message(
        "M",
        vec![map("m", 4, ".Entry"), map("f", 5, ".Flags"), map("c", 6, ".Colors")],
        false,
    );
    let this = [
        (
            "m",
            Value::Entries(vec![
                (Value::Text("a".into()), Value::BigInt(1)),
                (Value::Text("".into()), Value::BigInt(0)),
                (Value::Text("b".into()), Value::BigInt(0)),
                (Value::Text("c".into()), Value::BigInt(-(1 << 65))),
            ]),
        ),
        (
            "f",
            Value::Entries(vec![
                (Value::Number(0), Value::Boolean(true)),
                (Value::Number(4294967295), Value::Boolean(false)),
            ]),
        ),
        (
            "c",
            Value::Entries(vec![
                (Value::Boolean(false), Value::Number(3)),
                (Value::Boolean(true), Value::Number(0)),
            ]),
        ),
    ];
    let start = [
        ("m", Value::Entries(vec![])),
        ("f", Value::Entries(vec![])),
        ("c", Value::Entries(vec![])),
    ];
    for syntax in [Syntax::Proto2, Syntax::Proto3] {
        let mut ctx = Context::new(&options, &table, syntax).fork("a.proto".into(), syntax);
        let records = encoded(&m, &ctx, &this);
        assert_eq!(records.len(), 8);
        let Record::Block(4, second) = &records[1] else { panic!("no block") };
        if syntax == Syntax::Proto3 {
            // the implicit defaults are left out
            assert_eq!(second, &vec![]);
        } else {
            assert_eq!(
                second,
                &vec![
                    Record::Single(1, Value::Text("".into())),
                    Record::Single(2, Value::Decimal(0))
                ]
            );
        }
        let back = decoded(&m, &mut ctx, &start, &records).unwrap();
        for (name, value) in &this {
            assert_eq!(&back[*name], value);
        }
    }
}

#[test]
fn an_unknown_number_is_skipped_and_zero_is_refused() {
    let table = SymbolTable::new();
    let options = Options::new();
    let mut ctx = Context::new(&options, &table, Syntax::Proto3);
    let m = message("M", vec![field("a", 1, Label::Optional, FieldType::Int32)], false);
    let start = [("a", Value::Number(0))];
    let records = vec![
        Record::Single(9, Value::Text("from a later schema".into())),
        Record::Single(1, Value::Number(5)),
        Record::Block(7, vec![]),
    ];
    let back = decoded(&m, &mut ctx, &start, &records).unwrap();
    assert_eq!(back.len(), 1);
    assert_eq!(back["a"], Value::Number(5));
    let records = vec![Record::Single(1, Value::Number(5)), Record::Single(0, Value::Number(1))];
    assert!(decoded(&m, &mut ctx, &start, &records).is_err());
}

#[test]
fn presence_decides_what_is_written() {
    let table = SymbolTable::new();
    let options = Options::new();
    let mut pick = field("pick", 2, Label::Optional, FieldType::Int32);
    pick.oneof_index = Some(0);
    let mut other = field("other", 3, Label::Optional, FieldType::String);
    other.oneof_index = Some(0);
    let m = message(
        "M",
        vec![field("a", 1, Label::Optional, FieldType::Int32), pick, other],
        false,
    );
    let three = Context::new(&options, &table, Syntax::Proto3);
    let two = Context::new(&options, &table, Syntax::Proto2);
    // a zero is left out in the third dialect and written in the second
    let zero = [("a", Value::Number(0))];
    assert_eq!(encoded(&m, &three, &zero), vec![]);
    assert_eq!(encoded(&m, &two, &zero), vec![Record::Single(1, Value::Number(0))]);
    assert_eq!(encoded(&m, &two, &[]), vec![]);
    // a member of a oneof group is written once, whatever it holds
    for ctx in [&three, &two] {
        let set = [("pick", Value::Number(0))];
        assert_eq!(encoded(&m, ctx, &set), vec![Record::Single(2, Value::Number(0))]);
        let set = [("other", Value::Text("".into()))];
        assert_eq!(encoded(&m, ctx, &set), vec![Record::Single(3, Value::Text("".into()))]);
    }
}
