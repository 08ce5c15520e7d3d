use protoc_gen_ts::ast::{BinaryOp, ClassProp, Expr, Param, TsKeyword, TsType};
use protoc_gen_ts::common::field::{
    bare_field_member, map_to_string_normalizer, static_field_member, this_field_member,
    to_string_normalizer, FieldAccessor,
};
use protoc_gen_ts::context::{
    Context, Descriptor, GenError, Import, Symbol, SymbolTable, Syntax,
};
use protoc_gen_ts::descriptor::{
    DescriptorProto, EnumDescriptorProto, EnumValueDescriptorProto, FieldDescriptorProto,
    FieldType, Label,
};
use protoc_gen_ts::options::Options;
use protoc_gen_ts::runtime::google_protobuf::GooglePBRuntime;

fn field(name: &str, number: i32, label: Label, type_: FieldType) -> FieldDescriptorProto {
    FieldDescriptorProto {
        name: name.to_string(),
        number,
        label,
        type_,
        type_ref: String::new(),
        default_value: None,
        oneof_index: None,
        proto3_optional: false,
        packed: None,
    }
}

fn typed(name: &str, label: Label, type_: FieldType, type_ref: &str) -> FieldDescriptorProto {
    let mut f = field(name, 1, label, type_);
    f.type_ref = type_ref.to_string();
    f
}

fn with_default(type_: FieldType, default: &str) -> FieldDescriptorProto {
    let mut f = field("f", 1, Label::Optional, type_);
    f.default_value = Some(default.to_string());
    f
}

fn message(name: &str, fields: Vec<FieldDescriptorProto>, map_entry: bool) -> DescriptorProto {
    DescriptorProto {
        name: name.to_string(),
        field: fields,
        nested_type: vec![],
        enum_type: vec![],
        map_entry,
    }
}

fn symbol<'a>(type_ref: &str, file: &str, ident: &str, d: Descriptor<'a>) -> Symbol<'a> {
    Symbol {
        type_ref: type_ref.to_string(),
        file: file.to_string(),
        ident: ident.to_string(),
        descriptor: d,
    }
}

/// The declared types that the tests below share.
struct World {
    entry: DescriptorProto,
    enum_entry: DescriptorProto,
    bad_entry: DescriptorProto,
    group_entry: DescriptorProto,
    msg: DescriptorProto,
    other: DescriptorProto,
    color: EnumDescriptorProto,
    empty: EnumDescriptorProto,
}

fn world() -> World {
    World {
        entry: message(
            "Entry",
            vec![
                field("key", 1, Label::Optional, FieldType::String),
                typed("value", Label::Optional, FieldType::Message, ".Other"),
            ],
            true,
        ),
        enum_entry: message(
            "EnumEntry",
            vec![
                field("key", 1, Label::Optional, FieldType::Int64),
                typed("value", Label::Optional, FieldType::Enum, ".Missing"),
            ],
            true,
        ),
        bad_entry: message(
            "BadEntry",
            vec![field("key", 1, Label::Optional, FieldType::String)],
            true,
        ),
        group_entry: message(
            "GroupEntry",
            vec![
                field("key", 1, Label::Optional, FieldType::Group),
                field("value", 2, Label::Optional, FieldType::Int32),
            ],
            true,
        ),
        msg: message("Msg", vec![], false),
        other: message("Other", vec![], false),
        color: EnumDescriptorProto {
            name: "Color".to_string(),
            value: vec![
                EnumValueDescriptorProto { name: "RED".to_string(), number: 3 },
                EnumValueDescriptorProto { name: "NONE".to_string(), number: 0 },
            ],
        },
        empty: EnumDescriptorProto { name: "Empty".to_string(), value: vec![] },
    }
}

fn table(w: &World) -> SymbolTable<'_> {
    let mut t = SymbolTable::new();
    t.register(symbol(".Entry", "a.proto", "Entry", Descriptor::Message(&w.entry)));
    t.register(symbol(".EnumEntry", "a.proto", "EnumEntry", Descriptor::Message(&w.enum_entry)));
    t.register(symbol(".BadEntry", "a.proto", "BadEntry", Descriptor::Message(&w.bad_entry)));
    t.register(symbol(".GroupEntry", "a.proto", "GroupEntry", Descriptor::Message(&w.group_entry)));
    t.register(symbol(".Msg", "a.proto", "Msg", Descriptor::Message(&w.msg)));
    t.register(symbol(".Other", "other.proto", "Other", Descriptor::Message(&w.other)));
    t.register(symbol(".Color", "a.proto", "Color", Descriptor::Enum(&w.color)));
    t.register(symbol(".Empty", "a.proto", "Empty", Descriptor::Enum(&w.empty)));
    t
}

fn id(name: &str) -> Expr {
    Expr::Ident(name.to_string())
}

fn this(name: &str) -> Expr {
    Expr::Member(Box::new(Expr::This), name.to_string())
}

fn member(obj: Expr, prop: &str) -> Expr {
    Expr::Member(Box::new(obj), prop.to_string())
}

fn call(callee: Expr, args: Vec<Expr>) -> Expr {
    Expr::Call(Box::new(callee), args)
}

fn new(callee: Expr) -> Expr {
    Expr::New(Box::new(callee), vec![])
}

fn ne(left: Expr, right: Expr) -> Expr {
    Expr::Bin(BinaryOp::NotEqEq, Box::new(left), Box::new(right))
}

fn and(left: Expr, right: Expr) -> Expr {
    Expr::Bin(BinaryOp::LogicalAnd, Box::new(left), Box::new(right))
}

fn big_zero() -> Expr {
    call(id("BigInt"), vec![Expr::Num(0)])
}

fn keyword(k: TsKeyword) -> TsType {
    TsType::Keyword(k)
}

fn named(name: &str) -> TsType {
    TsType::Ref(name.to_string(), vec![])
}

const NUMBERS: [FieldType; 7] = [
    FieldType::Double,
    FieldType::Float,
    FieldType::Int32,
    FieldType::Uint32,
    FieldType::Sint32,
    FieldType::Fixed32,
    FieldType::Sfixed32,
];

const BIGINTS: [FieldType; 5] = [
    FieldType::Int64,
    FieldType::Uint64,
    FieldType::Sint64,
    FieldType::Fixed64,
    FieldType::Sfixed64,
];

#[test]
fn the_property_of_a_oneof_member_starts_with_an_underscore() {
    let mut f = field("choice", 1, Label::Optional, FieldType::Int32);
    assert_eq!(f.prop_name(), "choice");
    f.oneof_index = Some(0);
    assert_eq!(f.prop_name(), "_choice");
    f.oneof_index = Some(7);
    f.name = String::new();
    assert_eq!(f.prop_name(), "_");
}

#[test]
fn a_field_is_reached_in_three_ways() {
    let f = field("count", 1, Label::Optional, FieldType::Int32);
    assert_eq!(this_field_member(&f), this("count"));
    assert_eq!(bare_field_member(&f), id("count"));
    assert_eq!(static_field_member(&f), id("r"));
    assert_eq!(FieldAccessor::ThisMember.access(&f), this("count"));
    assert_eq!(FieldAccessor::BareLocal.access(&f), id("count"));
    assert_eq!(FieldAccessor::StaticSlot.access(&f), id("r"));
}

#[test]
fn the_normalizers_turn_values_into_text() {
    assert_eq!(to_string_normalizer(&this("n")), call(member(this("n"), "toString"), vec![]));
    assert_eq!(
        map_to_string_normalizer(&this("n")),
        call(
            member(this("n"), "map"),
            vec![Expr::Arrow(
                vec![Param { name: "v".to_string(), type_ann: None }],
                Box::new(call(member(id("v"), "toString"), vec![])),
            )],
        )
    );
}

#[test]
fn the_decoder_reaches_maps_and_unpacked_fields_as_locals() {
    let w = world();
    let t = table(&w);
    let options = Options::new();
    let three = Context::new(&options, &t, Syntax::Proto3);
    let two = Context::new(&options, &t, Syntax::Proto2);
    let map = typed("m", Label::Repeated, FieldType::Message, ".Entry");
    assert_eq!(map.into_accessor(&three), FieldAccessor::BareLocal);
    let packed = field("p", 1, Label::Repeated, FieldType::Int32);
    assert_eq!(packed.into_accessor(&three), FieldAccessor::ThisMember);
    assert_eq!(packed.into_accessor(&two), FieldAccessor::BareLocal);
    let strings = field("s", 1, Label::Repeated, FieldType::String);
    assert_eq!(strings.into_accessor(&three), FieldAccessor::BareLocal);
    let single = field("i", 1, Label::Optional, FieldType::Int32);
    assert_eq!(single.into_accessor(&three), FieldAccessor::ThisMember);
    assert_eq!(single.into_accessor(&two), FieldAccessor::ThisMember);
}

#[test]
fn the_implicit_defaults_of_the_third_dialect() {
    let w = world();
    let t = table(&w);
    let options = Options::new();
    let ctx = Context::new(&options, &t, Syntax::Proto3);
    let of = |type_: FieldType| field("f", 1, Label::Optional, type_).proto3_default(&ctx);
    assert_eq!(of(FieldType::String), Ok(Some(Expr::Str(String::new()))));
    for n in NUMBERS {
        assert_eq!(of(n), Ok(Some(Expr::Num(0))));
    }
    for b in BIGINTS {
        assert_eq!(of(b), Ok(Some(big_zero())));
    }
    assert_eq!(of(FieldType::Bool), Ok(Some(Expr::Bool(false))));
    assert_eq!(of(FieldType::Bytes), Ok(None));
    assert_eq!(of(FieldType::Message), Ok(None));
    assert_eq!(of(FieldType::Group), Ok(None));
    let color = typed("c", Label::Optional, FieldType::Enum, ".Color");
    assert_eq!(color.proto3_default(&ctx), Ok(Some(Expr::Num(3))));
    let empty = typed("c", Label::Optional, FieldType::Enum, ".Empty");
    assert_eq!(empty.proto3_default(&ctx), Err(GenError::UnresolvedSymbol));
    let missing = typed("c", Label::Optional, FieldType::Enum, ".Missing");
    assert_eq!(missing.proto3_default(&ctx), Err(GenError::UnresolvedSymbol));
    // a repeated field and a member of a oneof group have none
    assert_eq!(field("f", 1, Label::Repeated, FieldType::Int32).proto3_default(&ctx), Ok(None));
    let mut member = field("f", 1, Label::Optional, FieldType::Int32);
    member.oneof_index = Some(0);
    assert_eq!(member.proto3_default(&ctx), Ok(None));
    let mut member = typed("c", Label::Optional, FieldType::Enum, ".Missing");
    member.oneof_index = Some(0);
    assert_eq!(member.proto3_default(&ctx), Ok(None));
}

#[test]
fn a_zero_is_not_written_in_the_third_dialect() {
    let w = world();
    let t = table(&w);
    let options = Options::new();
    let three = Context::new(&options, &t, Syntax::Proto3);
    let two = Context::new(&options, &t, Syntax::Proto2);
    let none = Context::new(&options, &t, Syntax::Unspecified);
    let a = field("a", 1, Label::Optional, FieldType::Int32);
    let defined = ne(this("a"), id("undefined"));
    assert_eq!(
        a.default_value_bin_expr(&three, FieldAccessor::ThisMember),
        Ok(and(ne(this("a"), id("undefined")), ne(this("a"), Expr::Num(0))))
    );
    assert_eq!(a.default_value_bin_expr(&two, FieldAccessor::ThisMember), Ok(defined));
    assert_eq!(
        a.default_value_bin_expr(&none, FieldAccessor::ThisMember),
        Ok(ne(this("a"), id("undefined")))
    );
}

#[test]
fn presence_compares_with_the_implicit_default_of_each_kind() {
    let w = world();
    let t = table(&w);
    let options = Options::new();
    let three = Context::new(&options, &t, Syntax::Proto3);
    let two = Context::new(&options, &t, Syntax::Proto2);
    let defined = || ne(id("f"), id("undefined"));
    let test = |f: &FieldDescriptorProto, ctx: &Context| {
        f.default_value_bin_expr(ctx, FieldAccessor::BareLocal)
    };
    let s = field("f", 1, Label::Optional, FieldType::String);
    assert_eq!(test(&s, &three), Ok(and(defined(), ne(id("f"), Expr::Str(String::new())))));
    assert_eq!(test(&s, &two), Ok(defined()));
    let b = field("f", 1, Label::Optional, FieldType::Bool);
    assert_eq!(test(&b, &three), Ok(and(defined(), ne(id("f"), Expr::Bool(false)))));
    let big = field("f", 1, Label::Optional, FieldType::Uint64);
    assert_eq!(test(&big, &three), Ok(and(defined(), ne(id("f"), big_zero()))));
    assert_eq!(test(&big, &two), Ok(defined()));
    let e = typed("f", Label::Optional, FieldType::Enum, ".Color");
    assert_eq!(test(&e, &three), Ok(and(defined(), ne(id("f"), Expr::Num(3)))));
    assert_eq!(test(&e, &two), Ok(defined()));
    let missing = typed("f", Label::Optional, FieldType::Enum, ".Missing");
    assert_eq!(test(&missing, &three), Err(GenError::UnresolvedSymbol));
    assert_eq!(test(&missing, &two), Ok(defined()));
    let m = typed("f", Label::Optional, FieldType::Message, ".Msg");
    assert_eq!(test(&m, &three), Ok(defined()));
    assert_eq!(test(&m, &two), Ok(defined()));
}

#[test]
fn containers_are_present_when_they_are_not_empty() {
    let w = world();
    let t = table(&w);
    let options = Options::new();
    let three = Context::new(&options, &t, Syntax::Proto3);
    let two = Context::new(&options, &t, Syntax::Proto2);
    let sized = |prop: &str| {
        and(ne(this("f"), id("undefined")), ne(member(this("f"), prop), Expr::Num(0)))
    };
    let test = |f: &FieldDescriptorProto, ctx: &Context| {
        f.default_value_bin_expr(ctx, FieldAccessor::ThisMember)
    };
    let map = typed("f", Label::Repeated, FieldType::Message, ".Entry");
    assert_eq!(test(&map, &three), Ok(sized("size")));
    assert_eq!(test(&map, &two), Ok(sized("size")));
    let repeated = field("f", 1, Label::Repeated, FieldType::Int32);
    assert_eq!(test(&repeated, &three), Ok(sized("length")));
    assert_eq!(test(&repeated, &two), Ok(sized("length")));
    let messages = typed("f", Label::Repeated, FieldType::Message, ".Msg");
    assert_eq!(test(&messages, &three), Ok(sized("length")));
    let bytes = field("f", 1, Label::Optional, FieldType::Bytes);
    assert_eq!(test(&bytes, &three), Ok(sized("length")));
    assert_eq!(test(&bytes, &two), Ok(ne(this("f"), id("undefined"))));
}

#[test]
fn a_oneof_member_is_present_whenever_it_is_defined() {
    let w = world();
    let t = table(&w);
    let options = Options::new();
    for syntax in [Syntax::Proto3, Syntax::Proto2, Syntax::Unspecified] {
        let ctx = Context::new(&options, &t, syntax);
        for type_ in [
            FieldType::Int32,
            FieldType::Int64,
            FieldType::String,
            FieldType::Bool,
            FieldType::Bytes,
            FieldType::Enum,
            FieldType::Message,
        ] {
            let mut f = typed("pick", Label::Optional, type_, ".Missing");
            f.oneof_index = Some(0);
            assert_eq!(
                f.default_value_bin_expr(&ctx, FieldAccessor::ThisMember),
                Ok(ne(this("pick"), id("undefined")))
            );
        }
    }
}

#[test]
fn the_default_of_each_kind() {
    let w = world();
    let t = table(&w);
    let options = Options::new();
    let mut ctx = Context::new(&options, &t, Syntax::Proto2).fork("a.proto".into(), Syntax::Proto2);
    let mut of = |f: FieldDescriptorProto, whole: bool| f.default_value_expr(&mut ctx, whole);
    let plain = |type_: FieldType| field("f", 1, Label::Optional, type_);
    assert_eq!(of(plain(FieldType::String), false), Ok(Expr::Str(String::new())));
    assert_eq!(of(with_default(FieldType::String, "hi"), false), Ok(Expr::Str("hi".into())));
    for n in NUMBERS {
        assert_eq!(of(plain(n), false), Ok(Expr::Num(0)));
        assert_eq!(of(with_default(n, "5"), false), Ok(Expr::NumText("5".into())));
        assert_eq!(of(with_default(n, "-1.5e3"), true), Ok(Expr::NumText("-1.5e3".into())));
        assert_eq!(of(with_default(n, "inf"), true), Ok(Expr::NumText("inf".into())));
        assert_eq!(of(with_default(n, "five"), false), Err(GenError::MalformedDefault));
        assert_eq!(of(with_default(n, ""), false), Err(GenError::MalformedDefault));
        assert_eq!(of(with_default(n, "0x10"), false), Err(GenError::MalformedDefault));
    }
    for b in BIGINTS {
        assert_eq!(of(plain(b), false), Ok(big_zero()));
        assert_eq!(of(with_default(b, "12"), false), Ok(big_zero()));
        assert_eq!(of(with_default(b, "junk"), false), Ok(big_zero()));
    }
    assert_eq!(of(plain(FieldType::Bool), false), Ok(Expr::Bool(false)));
    assert_eq!(of(with_default(FieldType::Bool, "true"), false), Ok(Expr::Bool(true)));
    assert_eq!(of(with_default(FieldType::Bool, "false"), false), Ok(Expr::Bool(false)));
    assert_eq!(of(with_default(FieldType::Bool, "1"), false), Err(GenError::MalformedDefault));
    assert_eq!(of(with_default(FieldType::Bool, "True"), false), Err(GenError::MalformedDefault));
    assert_eq!(of(with_default(FieldType::Bool, ""), false), Err(GenError::MalformedDefault));
    assert_eq!(of(plain(FieldType::Bytes), false), Ok(new(id("Uint8Array"))));
    assert_eq!(of(plain(FieldType::Group), true), Ok(id("undefined")));
    assert_eq!(
        of(field("f", 1, Label::Repeated, FieldType::Int32), false),
        Ok(Expr::Array(vec![]))
    );
    assert_eq!(
        of(typed("f", Label::Repeated, FieldType::Message, ".Msg"), true),
        Ok(Expr::Array(vec![]))
    );
    assert_eq!(
        of(typed("f", Label::Repeated, FieldType::Message, ".Entry"), false),
        Ok(new(id("Map")))
    );
    assert_eq!(of(typed("f", Label::Optional, FieldType::Enum, ".Color"), false), Ok(Expr::Num(3)));
    assert_eq!(
        of(typed("f", Label::Required, FieldType::Enum, ".Empty"), false),
        Err(GenError::UnresolvedSymbol)
    );
    assert_eq!(
        of(typed("f", Label::Optional, FieldType::Enum, ".Missing"), false),
        Err(GenError::UnresolvedSymbol)
    );
    // a declared default of an enum does not count
    let mut e = typed("f", Label::Optional, FieldType::Enum, ".Color");
    e.default_value = Some("NONE".into());
    assert_eq!(of(e, false), Ok(Expr::Num(3)));
    assert_eq!(ctx.drain_imports(), vec![]);
}

#[test]
fn a_message_starts_as_an_instance_only_where_asked_for() {
    let w = world();
    let t = table(&w);
    let options = Options::new();
    let mut ctx = Context::new(&options, &t, Syntax::Proto2).fork("a.proto".into(), Syntax::Proto2);
    for label in [Label::Optional, Label::Required] {
        let m = typed("f", label, FieldType::Message, ".Msg");
        assert_eq!(m.default_value_expr(&mut ctx, true), Ok(new(id("Msg"))));
        assert_eq!(m.default_value_expr(&mut ctx, false), Ok(id("undefined")));
    }
    assert_eq!(ctx.drain_imports(), vec![]);
    let far = typed("f", Label::Optional, FieldType::Message, ".Other");
    assert_eq!(far.default_value_expr(&mut ctx, false), Ok(id("undefined")));
    assert_eq!(ctx.drain_imports(), vec![]);
    assert_eq!(far.default_value_expr(&mut ctx, true), Ok(new(id("Other"))));
    assert_eq!(
        ctx.drain_imports(),
        vec![Import { name: "Other".into(), source: "./other".into() }]
    );
    let missing = typed("f", Label::Optional, FieldType::Message, ".Missing");
    assert_eq!(missing.default_value_expr(&mut ctx, true), Err(GenError::UnresolvedSymbol));
    assert_eq!(missing.default_value_expr(&mut ctx, false), Ok(id("undefined")));
}

#[test]
fn a_oneof_member_starts_undefined() {
    let w = world();
    let t = table(&w);
    let options = Options::parse("with_sendable=true");
    let mut ctx = Context::new(&options, &t, Syntax::Proto3);
    for type_ in [FieldType::Int32, FieldType::String, FieldType::Message, FieldType::Enum] {
        let mut f = typed("f", Label::Optional, type_, ".Missing");
        f.oneof_index = Some(1);
        f.default_value = Some("junk".into());
        assert_eq!(f.default_value_expr(&mut ctx, true), Ok(id("undefined")));
    }
    // and asks for no import
    assert_eq!(ctx.drain_imports(), vec![]);
}

#[test]
fn the_alternate_containers_are_imported_and_used() {
    let w = world();
    let t = table(&w);
    let options = Options::parse("with_sendable=true");
    let mut ctx = Context::new(&options, &t, Syntax::Proto3).fork("a.proto".into(), Syntax::Proto3);
    let collections = |name: &str| new(member(id("collections"), name));
    let sendable = vec![Import { name: "collections".into(), source: "@kit.ArkTS".into() }];
    let map = typed("f", Label::Repeated, FieldType::Message, ".Entry");
    assert_eq!(map.default_value_expr(&mut ctx, false), Ok(collections("Map")));
    assert_eq!(ctx.drain_imports(), sendable);
    let repeated = field("f", 1, Label::Repeated, FieldType::String);
    assert_eq!(repeated.default_value_expr(&mut ctx, false), Ok(collections("Array")));
    let bytes = field("f", 1, Label::Optional, FieldType::Bytes);
    assert_eq!(bytes.default_value_expr(&mut ctx, false), Ok(collections("Uint8Array")));
    assert_eq!(ctx.drain_imports(), sendable);
    // the import is made for every field outside a oneof group, also on failure
    let number = with_default(FieldType::Int32, "x");
    assert_eq!(number.default_value_expr(&mut ctx, false), Err(GenError::MalformedDefault));
    assert_eq!(ctx.drain_imports(), sendable);
    let text = field("f", 1, Label::Optional, FieldType::String);
    assert_eq!(text.default_value_expr(&mut ctx, false), Ok(Expr::Str(String::new())));
    assert_eq!(ctx.drain_imports(), sendable);
}

#[test]
fn the_type_of_each_kind() {
    let w = world();
    let t = table(&w);
    let options = Options::new();
    let mut ctx = Context::new(&options, &t, Syntax::Proto3).fork("a.proto".into(), Syntax::Proto3);
    let mut of = |f: FieldDescriptorProto| f.type_annotation(&mut ctx);
    let plain = |type_: FieldType| field("f", 1, Label::Optional, type_);
    for n in NUMBERS {
        assert_eq!(of(plain(n)), Ok(Some(keyword(TsKeyword::Number))));
    }
    for b in BIGINTS {
        assert_eq!(of(plain(b)), Ok(Some(keyword(TsKeyword::BigInt))));
    }
    assert_eq!(of(plain(FieldType::Bool)), Ok(Some(keyword(TsKeyword::Boolean))));
    assert_eq!(of(plain(FieldType::String)), Ok(Some(keyword(TsKeyword::String))));
    assert_eq!(of(plain(FieldType::Bytes)), Ok(Some(named("Uint8Array"))));
    assert_eq!(of(plain(FieldType::Group)), Ok(None));
    assert_eq!(
        of(typed("f", Label::Optional, FieldType::Enum, ".Color")),
        Ok(Some(named("Color")))
    );
    assert_eq!(of(typed("f", Label::Required, FieldType::Message, ".Msg")), Ok(Some(named("Msg"))));
    assert_eq!(
        of(typed("f", Label::Optional, FieldType::Message, ".Missing")),
        Err(GenError::UnresolvedSymbol)
    );
    assert_eq!(
        of(typed("f", Label::Repeated, FieldType::Enum, ".Missing")),
        Err(GenError::UnresolvedSymbol)
    );
    assert_eq!(
        of(field("f", 1, Label::Repeated, FieldType::Sint64)),
        Ok(Some(TsType::Array(Box::new(keyword(TsKeyword::BigInt)))))
    );
    assert_eq!(
        of(typed("f", Label::Repeated, FieldType::Message, ".Msg")),
        Ok(Some(TsType::Array(Box::new(named("Msg")))))
    );
    assert_eq!(of(field("f", 1, Label::Repeated, FieldType::Group)), Ok(None));
    assert_eq!(ctx.drain_imports(), vec![]);
}

#[test]
fn the_type_of_a_map_field() {
    let w = world();
    let t = table(&w);
    let options = Options::new();
    let mut ctx = Context::new(&options, &t, Syntax::Proto3).fork("a.proto".into(), Syntax::Proto3);
    let map = typed("f", Label::Repeated, FieldType::Message, ".Entry");
    assert_eq!(
        map.type_annotation(&mut ctx),
        Ok(Some(TsType::Ref(
            "Map".into(),
            vec![keyword(TsKeyword::String), named("Other")]
        )))
    );
    assert_eq!(
        ctx.drain_imports(),
        vec![Import { name: "Other".into(), source: "./other".into() }]
    );
    let bad = typed("f", Label::Repeated, FieldType::Message, ".BadEntry");
    assert!(bad.is_map(&ctx));
    assert_eq!(bad.type_annotation(&mut ctx), Err(GenError::UnknownMapEntry));
    let group = typed("f", Label::Repeated, FieldType::Message, ".GroupEntry");
    assert_eq!(group.type_annotation(&mut ctx), Err(GenError::UnknownMapEntry));
    let missing = typed("f", Label::Repeated, FieldType::Message, ".EnumEntry");
    assert_eq!(missing.type_annotation(&mut ctx), Err(GenError::UnresolvedSymbol));
    assert_eq!(ctx.drain_imports(), vec![]);
}

#[test]
fn the_types_of_the_alternate_containers() {
    let w = world();
    let t = table(&w);
    let options = Options::parse("with_sendable=true");
    let mut ctx = Context::new(&options, &t, Syntax::Proto3).fork("a.proto".into(), Syntax::Proto3);
    let bytes = field("f", 1, Label::Optional, FieldType::Bytes);
    assert_eq!(bytes.type_annotation(&mut ctx), Ok(Some(named("collections.Uint8Array"))));
    let repeated = field("f", 1, Label::Repeated, FieldType::Bytes);
    assert_eq!(
        repeated.type_annotation(&mut ctx),
        Ok(Some(TsType::Ref("collections.Array".into(), vec![named("collections.Uint8Array")])))
    );
    let map = typed("f", Label::Repeated, FieldType::Message, ".Entry");
    assert_eq!(
        map.type_annotation(&mut ctx),
        Ok(Some(TsType::Ref(
            "collections.Map".into(),
            vec![keyword(TsKeyword::String), named("Other")]
        )))
    );
    let number = field("f", 1, Label::Optional, FieldType::Int32);
    assert_eq!(number.type_annotation(&mut ctx), Ok(Some(keyword(TsKeyword::Number))));
}

#[test]
fn a_nullish_type_allows_undefined() {
    let w = world();
    let t = table(&w);
    let options = Options::new();
    let mut ctx = Context::new(&options, &t, Syntax::Proto3).fork("a.proto".into(), Syntax::Proto3);
    let f = field("f", 1, Label::Optional, FieldType::String);
    assert_eq!(
        f.nullish_type_annotation(&mut ctx),
        Ok(Some(TsType::Union(vec![keyword(TsKeyword::String), keyword(TsKeyword::Undefined)])))
    );
    let g = field("f", 1, Label::Optional, FieldType::Group);
    assert_eq!(g.nullish_type_annotation(&mut ctx), Ok(None));
    let m = typed("f", Label::Optional, FieldType::Message, ".Missing");
    assert_eq!(m.nullish_type_annotation(&mut ctx), Err(GenError::UnresolvedSymbol));
    let far = typed("f", Label::Repeated, FieldType::Message, ".Other");
    assert_eq!(
        far.nullish_type_annotation(&mut ctx),
        Ok(Some(TsType::Union(vec![
            TsType::Array(Box::new(named("Other"))),
            keyword(TsKeyword::Undefined)
        ])))
    );
    assert_eq!(
        ctx.drain_imports(),
        vec![Import { name: "Other".into(), source: "./other".into() }]
    );
}

#[test]
fn a_default_is_held_as_its_type_holds_values() {
    let w = world();
    let t = table(&w);
    let options = Options::new();
    let mut ctx = Context::new(&options, &t, Syntax::Proto3);
    let f = field("big", 1, Label::Optional, FieldType::Int64);
    assert_eq!(f.type_annotation(&mut ctx), Ok(Some(keyword(TsKeyword::BigInt))));
    assert_eq!(f.default_value_expr(&mut ctx, false), Ok(big_zero()));
    let f = field("n", 1, Label::Optional, FieldType::Double);
    assert_eq!(f.type_annotation(&mut ctx), Ok(Some(keyword(TsKeyword::Number))));
    assert_eq!(f.default_value_expr(&mut ctx, false), Ok(Expr::Num(0)));
    let f = field("b", 1, Label::Optional, FieldType::Bytes);
    assert_eq!(f.type_annotation(&mut ctx), Ok(Some(named("Uint8Array"))));
    assert_eq!(f.default_value_expr(&mut ctx, false), Ok(new(id("Uint8Array"))));
}

#[test]
fn the_property_of_a_field() {
    let w = world();
    let t = table(&w);
    let options = Options::new();
    let runtime = GooglePBRuntime::new();
    let mut three =
        Context::new(&options, &t, Syntax::Proto3).fork("a.proto".into(), Syntax::Proto3);
    let mut two = Context::new(&options, &t, Syntax::Proto2).fork("a.proto".into(), Syntax::Proto2);
    let optional = field("a", 1, Label::Optional, FieldType::Int32);
    assert_eq!(
        optional.print_prop(&mut three, &runtime),
        Ok(ClassProp {
            key: "a".into(),
            optional: true,
            value: Some(Expr::Num(0)),
            type_ann: Some(keyword(TsKeyword::Number)),
        })
    );
    assert_eq!(
        optional.print_prop(&mut two, &runtime),
        Ok(ClassProp {
            key: "a".into(),
            optional: true,
            value: None,
            type_ann: Some(keyword(TsKeyword::Number)),
        })
    );
    let required = with_default(FieldType::Int32, "7");
    let required = FieldDescriptorProto { label: Label::Required, ..required };
    assert_eq!(
        required.print_prop(&mut two, &runtime),
        Ok(ClassProp {
            key: "f".into(),
            optional: false,
            value: Some(Expr::NumText("7".into())),
            type_ann: Some(keyword(TsKeyword::Number)),
        })
    );
    let repeated = field("r", 1, Label::Repeated, FieldType::String);
    assert_eq!(
        repeated.print_prop(&mut two, &runtime),
        Ok(ClassProp {
            key: "r".into(),
            optional: false,
            value: Some(Expr::Array(vec![])),
            type_ann: Some(TsType::Array(Box::new(keyword(TsKeyword::String)))),
        })
    );
    let mut member = field("pick", 1, Label::Optional, FieldType::String);
    member.oneof_index = Some(0);
    assert_eq!(
        member.print_prop(&mut three, &runtime),
        Ok(ClassProp {
            key: "_pick".into(),
            optional: true,
            value: Some(id("undefined")),
            type_ann: Some(keyword(TsKeyword::String)),
        })
    );
    let message = typed("m", Label::Optional, FieldType::Message, ".Msg");
    assert_eq!(
        message.print_prop(&mut three, &runtime),
        Ok(ClassProp {
            key: "m".into(),
            optional: true,
            value: Some(id("undefined")),
            type_ann: Some(named("Msg")),
        })
    );
    // an optional field of the second dialect has no initial value to fail on
    let malformed = with_default(FieldType::Int32, "x");
    assert!(malformed.print_prop(&mut two, &runtime).is_ok());
    assert_eq!(malformed.print_prop(&mut three, &runtime), Err(GenError::MalformedDefault));
    let missing = typed("m", Label::Optional, FieldType::Message, ".Missing");
    assert_eq!(missing.print_prop(&mut two, &runtime), Err(GenError::UnresolvedSymbol));
}
