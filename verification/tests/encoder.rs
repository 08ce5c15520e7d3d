use protoc_gen_ts::ast::{BinaryOp, Binding, Expr, Param, Stmt, VarKind};
use protoc_gen_ts::common::field::FieldAccessor;
use protoc_gen_ts::context::{
    Context, Descriptor, GenError, Import, Symbol, SymbolTable, Syntax,
};
use protoc_gen_ts::descriptor::{
    DescriptorProto, EnumDescriptorProto, EnumValueDescriptorProto, FieldDescriptorProto,
    FieldType, Label,
};
use protoc_gen_ts::options::Options;
use protoc_gen_ts::runtime::google_protobuf::GooglePBRuntime;

fn field(name: &str, number: i32, label: Label, type_: FieldType) -> FieldDescriptorProto {
    FieldDescriptorProto {
        name: name.to_string(),
        number,
        label,
        type_,
        type_ref: String::new(),
        default_value: None,
        oneof_index: None,
        proto3_optional: false,
        packed: None,
    }
}

fn typed(
    name: &str,
    number: i32,
    label: Label,
    type_: FieldType,
    type_ref: &str,
) -> FieldDescriptorProto {
    let mut f = field(name, number, label, type_);
    f.type_ref = type_ref.to_string();
    f
}

fn message(name: &str, fields: Vec<FieldDescriptorProto>, map_entry: bool) -> DescriptorProto {
    DescriptorProto {
        name: name.to_string(),
        field: fields,
        nested_type: vec![],
        enum_type: vec![],
        map_entry,
    }
}

fn symbol<'a>(type_ref: &str, file: &str, ident: &str, d: Descriptor<'a>) -> Symbol<'a> {
    Symbol {
        type_ref: type_ref.to_string(),
        file: file.to_string(),
        ident: ident.to_string(),
        descriptor: d,
    }
}

struct World {
    entry: DescriptorProto,
    enum_entry: DescriptorProto,
    bad_entry: DescriptorProto,
    msg: DescriptorProto,
    color: EnumDescriptorProto,
}

fn world() -> World {
    World {
        entry: message(
            "Entry",
            vec![
                field("key", 1, Label::Optional, FieldType::String),
                field("value", 2, Label::Optional, FieldType::Int64),
            ],
            true,
        ),
        enum_entry: message(
            "EnumEntry",
            vec![
                field("key", 1, Label::Optional, FieldType::Int32),
                typed("value", 2, Label::Optional, FieldType::Enum, ".Missing"),
            ],
            true,
        ),
        bad_entry: message("BadEntry", vec![], true),
        msg: message("Msg", vec![], false),
        color: EnumDescriptorProto {
            name: "Color".to_string(),
            value: vec![EnumValueDescriptorProto { name: "RED".to_string(), number: 3 }],
        },
    }
}

fn table(w: &World) -> SymbolTable<'_> {
    let mut t = SymbolTable::new();
    t.register(symbol(".Entry", "a.proto", "Entry", Descriptor::Message(&w.entry)));
    t.register(symbol(".EnumEntry", "a.proto", "EnumEntry", Descriptor::Message(&w.enum_entry)));
    t.register(symbol(".BadEntry", "a.proto", "BadEntry", Descriptor::Message(&w.bad_entry)));
    t.register(symbol(".Msg", "a.proto", "Msg", Descriptor::Message(&w.msg)));
    t.register(symbol(".Color", "a.proto", "Color", Descriptor::Enum(&w.color)));
    t
}

fn id(name: &str) -> Expr {
    Expr::Ident(name.to_string())
}

fn this(name: &str) -> Expr {
    Expr::Member(Box::new(Expr::This), name.to_string())
}

fn member(obj: Expr, prop: &str) -> Expr {
    Expr::Member(Box::new(obj), prop.to_string())
}

fn call(callee: Expr, args: Vec<Expr>) -> Expr {
    Expr::Call(Box::new(callee), args)
}

fn ne(left: Expr, right: Expr) -> Expr {
    Expr::Bin(BinaryOp::NotEqEq, Box::new(left), Box::new(right))
}

fn and(left: Expr, right: Expr) -> Expr {
    Expr::Bin(BinaryOp::LogicalAnd, Box::new(left), Box::new(right))
}

fn defined(x: Expr) -> Expr {
    ne(x, id("undefined"))
}

/// `bw.name(number, value);`
fn write(name: &str, number: i64, value: Expr) -> Stmt {
    Stmt::Expr(call(member(id("bw"), name), vec![Expr::Num(number), value]))
}

fn when(test: Expr, body: Stmt) -> Stmt {
    Stmt::If(test, Box::new(body), None)
}

fn text(x: Expr) -> Expr {
    call(member(x, "toString"), vec![])
}

#[test]
fn a_field_is_written_when_it_is_present() {
    let w = world();
    let t = table(&w);
    let options = Options::new();
    let runtime = GooglePBRuntime::new();
    let three = Context::new(&options, &t, Syntax::Proto3);
    let two = Context::new(&options, &t, Syntax::Proto2);
    let f = field("a", 1, Label::Optional, FieldType::Int32);
    assert_eq!(
        runtime.serialize_field_stmt(&two, &f, FieldAccessor::ThisMember),
        Ok(when(defined(this("a")), write("writeInt32", 1, this("a"))))
    );
    assert_eq!(
        runtime.serialize_field_stmt(&three, &f, FieldAccessor::ThisMember),
        Ok(when(
            and(defined(this("a")), ne(this("a"), Expr::Num(0))),
            write("writeInt32", 1, this("a"))
        ))
    );
}

/// The bytes that the generated statement writes for one field of the kind
/// `int32`: nothing where its test fails, else the tag of the field's
/// number with the wire type of a varint, and the value as a varint.
fn run_int32_write(stmt: &Stmt, field_name: &str, value: Option<u64>) -> Vec<u8> {
    let Stmt::If(test, body, None) = stmt else { panic!("not a conditional write") };
    assert_eq!(*test, defined(this(field_name)));
    let Some(value) = value else { return vec![] };
    let Stmt::Expr(Expr::Call(callee, args)) = &**body else { panic!("not a call") };
    assert_eq!(**callee, member(id("bw"), "writeInt32"));
    assert_eq!(args.len(), 2);
    assert_eq!(args[1], this(field_name));
    let Expr::Num(number) = args[0] else { panic!("no number") };
    let mut out = vec![];
    for mut v in [(number as u64) << 3, value] {
        while v >= 0x80 {
            out.push((v as u8 & 0x7f) | 0x80);
            v >>= 7;
        }
        out.push(v as u8);
    }
    out
}

#[test]
fn an_unset_field_with_a_declared_default_writes_nothing() {
    let w = world();
    let t = table(&w);
    let options = Options::new();
    let runtime = GooglePBRuntime::new();
    let mut ctx = Context::new(&options, &t, Syntax::Proto2);
    let mut a = field("a", 1, Label::Optional, FieldType::Int32);
    a.default_value = Some("5".to_string());
    let m = message("M", vec![a], false);
    let stmts = runtime.serialize_stmts(&ctx, &m, FieldAccessor::ThisMember).unwrap();
    assert_eq!(stmts.len(), 1);
    assert_eq!(stmts[0], when(defined(this("a")), write("writeInt32", 1, this("a"))));
    assert_eq!(run_int32_write(&stmts[0], "a", None), Vec::<u8>::new());
    assert_eq!(run_int32_write(&stmts[0], "a", Some(5)), vec![0x08, 0x05]);
    assert_eq!(run_int32_write(&stmts[0], "a", Some(300)), vec![0x08, 0xac, 0x02]);
    // the declared default is what the property holds where the class gives it a value
    assert_eq!(m.field[0].default_value_expr(&mut ctx, false), Ok(Expr::NumText("5".into())));
}

#[test]
fn a_oneof_member_is_written_once_whenever_it_is_defined() {
    let w = world();
    let t = table(&w);
    let options = Options::new();
    let runtime = GooglePBRuntime::new();
    for syntax in [Syntax::Proto3, Syntax::Proto2] {
        let ctx = Context::new(&options, &t, syntax);
        let mut a = field("a", 1, Label::Optional, FieldType::Int32);
        a.oneof_index = Some(0);
        let mut b = field("b", 2, Label::Optional, FieldType::String);
        b.oneof_index = Some(0);
        let mut c = field("c", 3, Label::Optional, FieldType::Int64);
        c.oneof_index = Some(0);
        c.packed = Some(true);
        let m = message("M", vec![a, b, c], false);
        assert_eq!(
            runtime.serialize_stmts(&ctx, &m, FieldAccessor::ThisMember),
            Ok(vec![
                when(defined(this("a")), write("writeInt32", 1, this("a"))),
                when(defined(this("b")), write("writeString", 2, this("b"))),
                when(defined(this("c")), write("writeInt64String", 3, text(this("c")))),
            ])
        );
    }
}

#[test]
fn each_kind_is_written_by_its_own_method() {
    let w = world();
    let t = table(&w);
    let options = Options::new();
    let runtime = GooglePBRuntime::new();
    let ctx = Context::new(&options, &t, Syntax::Proto2);
    let body = |f: &FieldDescriptorProto| {
        match runtime.serialize_plain_field_stmt(&ctx, f, FieldAccessor::ThisMember) {
            Ok(Stmt::If(_, body, None)) => *body,
            other => panic!("unexpected {:?}", other),
        }
    };
    let plain = |t: FieldType| field("f", 7, Label::Optional, t);
    assert_eq!(body(&plain(FieldType::Double)), write("writeDouble", 7, this("f")));
    assert_eq!(body(&plain(FieldType::Bool)), write("writeBool", 7, this("f")));
    assert_eq!(body(&plain(FieldType::Bytes)), write("writeBytes", 7, this("f")));
    assert_eq!(body(&plain(FieldType::Enum)), write("writeEnum", 7, this("f")));
    assert_eq!(body(&plain(FieldType::Uint32)), write("writeUint32", 7, this("f")));
    assert_eq!(
        body(&plain(FieldType::Fixed64)),
        write("writeFixed64String", 7, text(this("f")))
    );
    assert_eq!(
        body(&typed("f", 7, Label::Optional, FieldType::Message, ".Msg")),
        write("writeBytes", 7, call(member(this("f"), "toBinary"), vec![]))
    );
}

#[test]
fn repeated_fields_are_written_packed_or_value_by_value() {
    let w = world();
    let t = table(&w);
    let options = Options::new();
    let runtime = GooglePBRuntime::new();
    let three = Context::new(&options, &t, Syntax::Proto3);
    let two = Context::new(&options, &t, Syntax::Proto2);
    let present = |name: &str| {
        and(defined(this(name)), ne(member(this(name), "length"), Expr::Num(0)))
    };
    let each = |name: &str, body: Stmt| {
        Stmt::ForOf(Binding::Name("value".into()), this(name), Box::new(body))
    };
    let n = field("n", 2, Label::Repeated, FieldType::Sint32);
    assert_eq!(
        runtime.serialize_field_stmt(&three, &n, FieldAccessor::ThisMember),
        Ok(when(present("n"), write("writePackedSint32", 2, this("n"))))
    );
    assert_eq!(
        runtime.serialize_field_stmt(&two, &n, FieldAccessor::ThisMember),
        Ok(when(present("n"), each("n", write("writeSint32", 2, id("value")))))
    );
    let big = field("big", 3, Label::Repeated, FieldType::Uint64);
    assert_eq!(
        runtime.serialize_field_stmt(&three, &big, FieldAccessor::ThisMember),
        Ok(when(
            present("big"),
            write(
                "writePackedUint64String",
                3,
                call(
                    member(this("big"), "map"),
                    vec![Expr::Arrow(
                        vec![Param { name: "v".into(), type_ann: None }],
                        Box::new(text(id("v"))),
                    )],
                ),
            )
        ))
    );
    assert_eq!(
        runtime.serialize_field_stmt(&two, &big, FieldAccessor::ThisMember),
        Ok(when(present("big"), each("big", write("writeUint64String", 3, text(id("value"))))))
    );
    let s = field("s", 4, Label::Repeated, FieldType::String);
    assert_eq!(
        runtime.serialize_field_stmt(&three, &s, FieldAccessor::ThisMember),
        Ok(when(present("s"), each("s", write("writeString", 4, id("value")))))
    );
    let m = typed("m", 5, Label::Repeated, FieldType::Message, ".Msg");
    assert_eq!(
        runtime.serialize_field_stmt(&three, &m, FieldAccessor::ThisMember),
        Ok(when(
            present("m"),
            each("m", write("writeBytes", 5, call(member(id("value"), "toBinary"), vec![])))
        ))
    );
}

#[test]
fn a_map_is_written_entry_by_entry() {
    let w = world();
    let t = table(&w);
    let options = Options::new();
    let runtime = GooglePBRuntime::new();
    let three = Context::new(&options, &t, Syntax::Proto3);
    let two = Context::new(&options, &t, Syntax::Proto2);
    let map = typed("m", 4, Label::Repeated, FieldType::Message, ".Entry");
    let expected = |key_test: Expr, value_test: Expr| {
        when(
            and(defined(this("m")), ne(member(this("m"), "size"), Expr::Num(0))),
            Stmt::ForOf(
                Binding::Pair("key".into(), "value".into()),
                this("m"),
                Box::new(Stmt::Expr(call(
                    member(id("bw"), "writeMessage"),
                    vec![
                        Expr::Num(4),
                        id("undefined"),
                        Expr::ArrowBlock(
                            vec![],
                            vec![
                                when(key_test, write("writeString", 1, id("key"))),
                                when(value_test, write("writeInt64String", 2, text(id("value")))),
                            ],
                        ),
                    ],
                ))),
            ),
        )
    };
    assert_eq!(
        runtime.serialize_field_stmt(&two, &map, FieldAccessor::ThisMember),
        Ok(expected(defined(id("key")), defined(id("value"))))
    );
    assert_eq!(
        runtime.serialize_field_stmt(&three, &map, FieldAccessor::ThisMember),
        Ok(expected(
            and(defined(id("key")), ne(id("key"), Expr::Str(String::new()))),
            and(
                defined(id("value")),
                ne(id("value"), call(id("BigInt"), vec![Expr::Num(0)]))
            ),
        ))
    );
    let bad = typed("m", 4, Label::Repeated, FieldType::Message, ".BadEntry");
    assert_eq!(
        runtime.serialize_field_stmt(&two, &bad, FieldAccessor::ThisMember),
        Err(GenError::UnknownMapEntry)
    );
    assert_eq!(
        runtime.serialize_map_field_stmt(&two, &field("x", 1, Label::Optional, FieldType::Int32),
            FieldAccessor::ThisMember),
        Err(GenError::UnknownMapEntry)
    );
    let missing = typed("m", 4, Label::Repeated, FieldType::Message, ".EnumEntry");
    assert_eq!(
        runtime.serialize_field_stmt(&three, &missing, FieldAccessor::ThisMember),
        Err(GenError::UnresolvedSymbol)
    );
    assert!(runtime.serialize_field_stmt(&two, &missing, FieldAccessor::ThisMember).is_ok());
}

#[test]
fn the_first_failing_field_fails_the_encoder() {
    let w = world();
    let t = table(&w);
    let options = Options::new();
    let runtime = GooglePBRuntime::new();
    let ctx = Context::new(&options, &t, Syntax::Proto3);
    let m = message(
        "M",
        vec![
            field("ok", 1, Label::Optional, FieldType::Int32),
            typed("bad", 2, Label::Repeated, FieldType::Message, ".BadEntry"),
            typed("gone", 3, Label::Optional, FieldType::Enum, ".Missing"),
        ],
        false,
    );
    assert_eq!(
        runtime.serialize_stmts(&ctx, &m, FieldAccessor::ThisMember),
        Err(GenError::UnknownMapEntry)
    );
    let m = message(
        "M",
        vec![
            typed("gone", 3, Label::Optional, FieldType::Enum, ".Missing"),
            typed("bad", 2, Label::Repeated, FieldType::Message, ".BadEntry"),
        ],
        false,
    );
    assert_eq!(
        runtime.serialize_stmts(&ctx, &m, FieldAccessor::ThisMember),
        Err(GenError::UnresolvedSymbol)
    );
    assert_eq!(
        runtime.serialize_stmts(&ctx, &message("E", vec![], false), FieldAccessor::ThisMember),
        Ok(vec![])
    );
}

#[test]
fn the_setup_declares_the_writer_and_returns_what_it_wrote() {
    let w = world();
    let t = table(&w);
    let options = Options::new();
    let runtime = GooglePBRuntime::new();
    let mut ctx = Context::new(&options, &t, Syntax::Proto2);
    let m = message("M", vec![field("s", 1, Label::Optional, FieldType::String)], false);
    let the_write = when(defined(this("s")), write("writeString", 1, this("s")));
    assert_eq!(
        runtime.serialize_setup_inner(&mut ctx, &m, false),
        Ok(vec![when(defined(this("s")), write("writeString", 1, this("s")))])
    );
    assert_eq!(ctx.drain_imports(), vec![]);
    assert_eq!(
        runtime.serialize_setup_inner(&mut ctx, &m, true),
        Ok(vec![
            Stmt::Decl(
                VarKind::Const,
                "bw".into(),
                None,
                Expr::New(Box::new(id("BinaryWriter")), vec![]),
            ),
            the_write,
            Stmt::Return(call(member(id("bw"), "getResultBuffer"), vec![])),
        ])
    );
    assert_eq!(
        ctx.drain_imports(),
        vec![
            Import { name: "BinaryReader".into(), source: "google-protobuf".into() },
            Import { name: "BinaryWriter".into(), source: "google-protobuf".into() },
        ]
    );
}
