//! What a field means for the generated class: how it is reached, of which
//! type it is, what it holds before it is set, and when it counts as set.

use crate::ast::{
    and, arrow, call0, call1, ident, member, named_type, named_type1, named_type2, new0, not_eq,
    num, opt_expr_view, opt_ts_type_view, params1, str_lit, undefined, union2, ClassProp, Expr,
    SpecClassProp, SpecExpr, SpecParam, SpecTsType, TsKeyword, TsType,
};
use crate::context::{
    lemma_with_imports_twice, lemma_with_no_imports, Context, Gen, GenError, SpecEnv, Syntax,
};
use crate::descriptor::{FieldDescriptorProto, SpecField};
use crate::number::{is_number, is_number_literal};
use crate::text::{joined, str_eq};
use vstd::prelude::*;
use vstd::string::*;

verus! {

/// How generated code reaches the value of a field.
#[derive(Clone, Copy, Debug, PartialEq, Eq, Structural)]
pub enum FieldAccessor {
    /// As a property of `this`.
    ThisMember,
    /// As a local variable of the field's name.
    BareLocal,
    /// As the local variable `r`.
    StaticSlot,
}

impl FieldAccessor {
    /// The expression that reaches the field.
    pub open spec fn spec_access(self, f: SpecField) -> SpecExpr {
        match self {
            FieldAccessor::ThisMember => SpecExpr::member(SpecExpr::This, f.name),
            FieldAccessor::BareLocal => SpecExpr::ident(f.name),
            FieldAccessor::StaticSlot => SpecExpr::ident("r"@),
        }
    }

    /// The expression that reaches the field.
    pub fn access(self, field: &FieldDescriptorProto) -> (r: Expr)
        ensures
            r@ == self.spec_access(field@),
    {
        match self {
            FieldAccessor::ThisMember => this_field_member(field),
            FieldAccessor::BareLocal => bare_field_member(field),
            FieldAccessor::StaticSlot => static_field_member(field),
        }
    }
}

/// `expr.map((v) => v.toString())`
pub fn map_to_string_normalizer(expr: &Expr) -> (r: Expr)
    ensures
        r@ == SpecExpr::call(
            SpecExpr::member(expr@, "map"@),
            seq![
                SpecExpr::arrow(
                    seq![SpecParam { name: "v"@, type_ann: None }],
                    SpecExpr::call(
                        SpecExpr::member(SpecExpr::ident("v"@), "toString"@),
                        Seq::empty(),
                    ),
                ),
            ],
        ),
{
    call1(
        member(expr.duplicate(), "map"),
        arrow(params1("v", None), call0(member(ident("v"), "toString"))),
    )
}

/// `expr.toString()`
pub fn to_string_normalizer(expr: &Expr) -> (r: Expr)
    ensures
        r@ == SpecExpr::call(SpecExpr::member(expr@, "toString"@), Seq::empty()),
{
    call0(member(expr.duplicate(), "toString"))
}

/// `this.name`
pub fn this_field_member(field: &FieldDescriptorProto) -> (r: Expr)
    ensures
        r@ == FieldAccessor::ThisMember.spec_access(field@),
{
    member(Expr::This, field.name())
}

/// `name`
pub fn bare_field_member(field: &FieldDescriptorProto) -> (r: Expr)
    ensures
        r@ == FieldAccessor::BareLocal.spec_access(field@),
{
    ident(field.name())
}

/// `r`
pub fn static_field_member(_field: &FieldDescriptorProto) -> (r: Expr)
    ensures
        r@ == FieldAccessor::StaticSlot.spec_access(_field@),
{
    ident("r")
}

/// How the decoder reaches a field while it reads it: a map field and a
/// repeated field that is not packed as a local, any other field as a
/// property of `this`.
pub open spec fn accessor_of(f: SpecField, env: SpecEnv) -> FieldAccessor {
    if f.is_repeated() && env.is_map(f) {
        FieldAccessor::BareLocal
    } else if f.is_repeated() && !env.is_packed(f) {
        FieldAccessor::BareLocal
    } else {
        FieldAccessor::ThisMember
    }
}

/// The value that a field of the third dialect has while it is unset, for
/// the kinds that have one: the empty string, zero, `false`, the first
/// member of the enum. A repeated field, a member of a oneof group and a
/// message have none.
pub open spec fn proto3_default_of(f: SpecField, env: SpecEnv) -> Result<
    Option<SpecExpr>,
    GenError,
> {
    if f.is_repeated() || f.has_oneof_index() {
        Ok(None)
    } else if f.is_string() {
        Ok(Some(SpecExpr::Str(""@)))
    } else if f.is_bigint() {
        Ok(Some(SpecExpr::call(SpecExpr::ident("BigInt"@), seq![SpecExpr::Num(0)])))
    } else if f.is_number() {
        Ok(Some(SpecExpr::Num(0)))
    } else if f.is_boolean() {
        Ok(Some(SpecExpr::Bool(false)))
    } else if f.is_enum() {
        match env.leading_enum_member(f.type_ref) {
            Some(n) => Ok(Some(SpecExpr::Num(n))),
            None => Err(GenError::UnresolvedSymbol),
        }
    } else {
        Ok(None)
    }
}

/// `x !== undefined`
pub open spec fn is_defined(x: SpecExpr) -> SpecExpr {
    SpecExpr::not_eq(x, SpecExpr::undefined())
}

/// `x !== undefined && x.prop !== 0`
pub open spec fn is_not_empty(x: SpecExpr, prop: Seq<char>) -> SpecExpr {
    SpecExpr::and(is_defined(x), SpecExpr::not_eq(SpecExpr::member(x, prop), SpecExpr::Num(0)))
}

/// The test that decides whether a field is written, before the dialect's
/// defaults are taken into account: the field is defined, and a map, a
/// repeated field or (in the third dialect) a byte array is not empty.
pub open spec fn presence_of(f: SpecField, env: SpecEnv, x: SpecExpr) -> SpecExpr {
    if env.is_map(f) {
        is_not_empty(x, "size"@)
    } else if (f.is_bytes() && env.syntax == Syntax::Proto3) || f.is_repeated() {
        is_not_empty(x, "length"@)
    } else {
        is_defined(x)
    }
}

/// The test that decides whether a field is written. A member of a oneof
/// group is written whenever it is defined. Any other field is written
/// when it is present and, in the third dialect, differs from the value
/// that it has while unset.
pub open spec fn present_expr(f: SpecField, env: SpecEnv, accessor: FieldAccessor) -> Result<
    SpecExpr,
    GenError,
> {
    let x = accessor.spec_access(f);
    if f.has_oneof_index() {
        Ok(is_defined(x))
    } else if env.syntax == Syntax::Proto3 {
        match proto3_default_of(f, env) {
            Ok(Some(d)) => Ok(SpecExpr::and(presence_of(f, env, x), SpecExpr::not_eq(x, d))),
            Ok(None) => Ok(presence_of(f, env, x)),
            Err(e) => Err(e),
        }
    } else {
        Ok(presence_of(f, env, x))
    }
}

/// The constructor of a container: the plain one, or the one of the
/// alternate containers.
pub open spec fn container(env: SpecEnv, name: Seq<char>) -> SpecExpr {
    if env.options.with_sendable {
        SpecExpr::member(SpecExpr::ident("collections"@), name)
    } else {
        SpecExpr::ident(name)
    }
}

/// The declared default of a field, or the empty text.
pub open spec fn declared_default(f: SpecField) -> Seq<char> {
    match f.default_value {
        Some(d) => d,
        None => Seq::empty(),
    }
}

/// The value that a field outside a oneof group holds before it is set.
pub open spec fn plain_default_value(f: SpecField, env: SpecEnv, include_message: bool) -> Gen<
    SpecExpr,
> {
    if env.is_map(f) {
        Gen::pure(SpecExpr::new_of(container(env, "Map"@), Seq::empty()))
    } else if f.is_repeated() {
        if env.options.with_sendable {
            Gen::pure(SpecExpr::new_of(container(env, "Array"@), Seq::empty()))
        } else {
            Gen::pure(SpecExpr::Array(Seq::empty()))
        }
    } else if f.is_enum() {
        match env.leading_enum_member(f.type_ref) {
            Some(n) => Gen::pure(SpecExpr::Num(n)),
            None => Gen::fail(GenError::UnresolvedSymbol),
        }
    } else if f.is_message() {
        if include_message {
            let t = env.type_ident(f.type_ref);
            Gen {
                value: match t.value {
                    Ok(id) => Ok(SpecExpr::new_of(SpecExpr::ident(id), Seq::empty())),
                    Err(e) => Err(e),
                },
                imports: t.imports,
            }
        } else {
            Gen::pure(SpecExpr::undefined())
        }
    } else if f.is_bytes() {
        Gen::pure(SpecExpr::new_of(container(env, "Uint8Array"@), Seq::empty()))
    } else if f.is_string() {
        Gen::pure(SpecExpr::Str(declared_default(f)))
    } else if f.is_bigint() {
        Gen::pure(SpecExpr::call(SpecExpr::ident("BigInt"@), seq![SpecExpr::Num(0)]))
    } else if f.is_number() {
        match f.default_value {
            None => Gen::pure(SpecExpr::Num(0)),
            Some(text) => if is_number_literal(text) {
                Gen::pure(SpecExpr::NumText(text))
            } else {
                Gen::fail(GenError::MalformedDefault)
            },
        }
    } else if f.is_boolean() {
        match f.default_value {
            None => Gen::pure(SpecExpr::Bool(false)),
            Some(text) => if text == "true"@ {
                Gen::pure(SpecExpr::Bool(true))
            } else if text == "false"@ {
                Gen::pure(SpecExpr::Bool(false))
            } else {
                Gen::fail(GenError::MalformedDefault)
            },
        }
    } else {
        Gen::pure(SpecExpr::undefined())
    }
}

/// What the alternate containers need imported, where the options ask for
/// them.
pub open spec fn container_imports(env: SpecEnv) -> Set<crate::context::SpecImport> {
    if env.options.with_sendable {
        env.sendable_imports()
    } else {
        Set::empty()
    }
}

/// The value that a field holds before it is set. A member of a oneof
/// group is undefined. A map and a repeated field are empty containers, an
/// enum is its first member, a message is a new instance where
/// `include_message` asks for one and undefined where not, a byte array is
/// empty, a 64-bit integer is zero, and a string, a number and a boolean
/// are what the declared default says, or empty, zero and `false` without
/// one.
pub open spec fn default_value(f: SpecField, env: SpecEnv, include_message: bool) -> Gen<
    SpecExpr,
> {
    if f.has_oneof_index() {
        Gen::pure(SpecExpr::undefined())
    } else {
        plain_default_value(f, env, include_message).after(container_imports(env))
    }
}

/// The name of a container type: the plain one, or the one of the
/// alternate containers.
pub open spec fn container_type(env: SpecEnv, plain: Seq<char>, alternate: Seq<char>) -> Seq<
    char,
> {
    if env.options.with_sendable {
        alternate
    } else {
        plain
    }
}

/// The type of one value of a field, whatever the field's label: a number,
/// an arbitrary-precision integer for the 64-bit kinds, a boolean, a
/// string, a byte array, or the generated type of an enum or a message.
/// A group has none.
pub open spec fn base_type(f: SpecField, env: SpecEnv) -> Gen<Option<SpecTsType>> {
    if f.is_bytes() {
        Gen::pure(
            Some(
                SpecTsType::Ref(
                    container_type(env, "Uint8Array"@, "collections.Uint8Array"@),
                    Seq::empty(),
                ),
            ),
        )
    } else if f.is_number() {
        Gen::pure(Some(SpecTsType::Keyword(TsKeyword::Number)))
    } else if f.is_bigint() {
        Gen::pure(Some(SpecTsType::Keyword(TsKeyword::BigInt)))
    } else if f.is_string() {
        Gen::pure(Some(SpecTsType::Keyword(TsKeyword::String)))
    } else if f.is_boolean() {
        Gen::pure(Some(SpecTsType::Keyword(TsKeyword::Boolean)))
    } else if f.is_enum() || f.is_message() {
        let t = env.type_ident(f.type_ref);
        Gen {
            value: match t.value {
                Ok(id) => Ok(Some(SpecTsType::Ref(id, Seq::empty()))),
                Err(e) => Err(e),
            },
            imports: t.imports,
        }
    } else {
        Gen::pure(None)
    }
}

/// The type of a map field: the map from the entry's key type to its value
/// type.
pub open spec fn map_type(f: SpecField, env: SpecEnv) -> Gen<Option<SpecTsType>> {
    match env.map_entry(f.type_ref) {
        None => Gen::fail(GenError::UnknownMapEntry),
        Some(entry) => {
            let k = base_type(entry.field[0], env);
            match k.value {
                Err(e) => Gen { value: Err(e), imports: k.imports },
                Ok(None) => Gen { value: Err(GenError::UnknownMapEntry), imports: k.imports },
                Ok(Some(kt)) => {
                    let v = base_type(entry.field[1], env);
                    Gen {
                        value: match v.value {
                            Err(e) => Err(e),
                            Ok(None) => Err(GenError::UnknownMapEntry),
                            Ok(Some(vt)) => Ok(
                                Some(
                                    SpecTsType::Ref(
                                        container_type(env, "Map"@, "collections.Map"@),
                                        seq![kt, vt],
                                    ),
                                ),
                            ),
                        },
                        imports: k.imports.union(v.imports),
                    }
                },
            }
        },
    }
}

/// The sequence type over an element type.
pub open spec fn sequence_type(env: SpecEnv, elem: SpecTsType) -> SpecTsType {
    if env.options.with_sendable {
        SpecTsType::Ref("collections.Array"@, seq![elem])
    } else {
        SpecTsType::Array(Box::new(elem))
    }
}

/// The type of a field in the generated class: a map for a map field, a
/// sequence of the base type for any other repeated field, else the base
/// type.
pub open spec fn target_type(f: SpecField, env: SpecEnv) -> Gen<Option<SpecTsType>> {
    if env.is_map(f) {
        map_type(f, env)
    } else if f.is_repeated() {
        let b = base_type(f, env);
        Gen {
            value: match b.value {
                Ok(Some(t)) => Ok(Some(sequence_type(env, t))),
                Ok(None) => Ok(None),
                Err(e) => Err(e),
            },
            imports: b.imports,
        }
    } else {
        base_type(f, env)
    }
}

/// The type of a field that may be undefined.
pub open spec fn nullish_type(f: SpecField, env: SpecEnv) -> Gen<Option<SpecTsType>> {
    let t = target_type(f, env);
    Gen {
        value: match t.value {
            Ok(Some(t)) => Ok(
                Some(SpecTsType::Union(seq![t, SpecTsType::Keyword(TsKeyword::Undefined)])),
            ),
            Ok(None) => Ok(None),
            Err(e) => Err(e),
        },
        imports: t.imports,
    }
}

/// Whether the class gives the field's property an initial value: always
/// in the third dialect, else for what is not optional, and for repeated
/// and map fields.
pub open spec fn has_initializer(f: SpecField, env: SpecEnv) -> bool {
    env.syntax == Syntax::Proto3 || f.is_repeated() || env.is_map(f) || !f.is_optional()
}

/// The property that the generated class declares for a field.
pub open spec fn class_prop(f: SpecField, env: SpecEnv) -> Gen<SpecClassProp> {
    let v = if has_initializer(f, env) {
        default_value(f, env, false)
    } else {
        Gen::pure(SpecExpr::undefined())
    };
    match v.value {
        Err(e) => Gen { value: Err(e), imports: v.imports },
        Ok(init) => {
            let t = target_type(f, env);
            Gen {
                value: match t.value {
                    Err(e) => Err(e),
                    Ok(ty) => Ok(
                        SpecClassProp {
                            key: f.prop_name(),
                            optional: f.is_optional(),
                            value: if has_initializer(f, env) {
                                Some(init)
                            } else {
                                None
                            },
                            type_ann: ty,
                        },
                    ),
                },
                imports: v.imports.union(t.imports),
            }
        },
    }
}

/// The model of a step's result that is an expression.
pub open spec fn expr_result(r: Result<Expr, GenError>) -> Result<SpecExpr, GenError> {
    match r {
        Ok(e) => Ok(e@),
        Err(e) => Err(e),
    }
}

/// The model of a step's result that is an optional expression.
pub open spec fn opt_expr_result(r: Result<Option<Expr>, GenError>) -> Result<
    Option<SpecExpr>,
    GenError,
> {
    match r {
        Ok(e) => Ok(opt_expr_view(e)),
        Err(e) => Err(e),
    }
}

/// The model of a step's result that is an optional type.
pub open spec fn type_result(r: Result<Option<TsType>, GenError>) -> Result<
    Option<SpecTsType>,
    GenError,
> {
    match r {
        Ok(t) => Ok(opt_ts_type_view(t)),
        Err(e) => Err(e),
    }
}

/// The model of a step's result that is a class property.
pub open spec fn prop_result(r: Result<ClassProp, GenError>) -> Result<SpecClassProp, GenError> {
    match r {
        Ok(p) => Ok(p@),
        Err(e) => Err(e),
    }
}

/// What implements the reading and writing of the wire format in generated
/// code.
pub trait Runtime {

}

impl FieldDescriptorProto {
    /// How the decoder reaches the field while it reads it.
    pub fn into_accessor(&self, ctx: &Context) -> (r: FieldAccessor)
        ensures
            r == accessor_of(self@, ctx@.env),
    {
        if self.is_repeated() && self.is_map(ctx) {
            FieldAccessor::BareLocal
        } else if self.is_repeated() && !self.is_packed(ctx) {
            FieldAccessor::BareLocal
        } else {
            FieldAccessor::ThisMember
        }
    }

    /// The property under which the class holds the field.
    pub fn prop_name(&self) -> (r: String)
        ensures
            r@ == self@.prop_name(),
    {
        if self.has_oneof_index() {
            joined("_", self.name())
        } else {
            self.name().to_owned()
        }
    }

    /// The test that decides whether the field is written.
    pub fn default_value_bin_expr(&self, ctx: &Context, accessor: FieldAccessor) -> (r: Result<
        Expr,
        GenError,
    >)
        ensures
            expr_result(r) == present_expr(self@, ctx@.env, accessor),
    {
        let neq_undefined_check = not_eq(accessor.access(self), undefined());
        // A member of a oneof group is written whenever it is set, even
        // where its value is the default.
        if self.has_oneof_index() {
            return Ok(neq_undefined_check);
        }
        let presence_check = if self.is_map(ctx) {
            and(neq_undefined_check, not_eq(member(accessor.access(self), "size"), num(0)))
        } else if (self.is_bytes() && ctx.syntax() == Syntax::Proto3) || self.is_repeated() {
            and(neq_undefined_check, not_eq(member(accessor.access(self), "length"), num(0)))
        } else {
            neq_undefined_check
        };
        if ctx.syntax() == Syntax::Proto3 {
            match self.proto3_default(ctx) {
                Ok(Some(default_expr)) => Ok(
                    and(presence_check, not_eq(accessor.access(self), default_expr)),
                ),
                Ok(None) => Ok(presence_check),
                Err(e) => Err(e),
            }
        } else {
            Ok(presence_check)
        }
    }

    /// The value that the field has in the third dialect while it is unset,
    /// if its kind has one.
    pub fn proto3_default(&self, ctx: &Context) -> (r: Result<Option<Expr>, GenError>)
        ensures
            opt_expr_result(r) == proto3_default_of(self@, ctx@.env),
    {
        if self.is_repeated() || self.has_oneof_index() {
            return Ok(None);
        }
        if self.is_string() {
            Ok(Some(str_lit("")))
        } else if self.is_bigint() {
            Ok(Some(call1(ident("BigInt"), num(0))))
        } else if self.is_number() {
            Ok(Some(num(0)))
        } else if self.is_boolean() {
            Ok(Some(Expr::Bool(false)))
        } else if self.is_enum() {
            match ctx.get_leading_enum_member(self.type_ref()) {
                Ok(n) => Ok(Some(num(n as i64))),
                Err(e) => Err(e),
            }
        } else {
            Ok(None)
        }
    }

    /// The constructor of a container.
    fn container_expr(ctx: &Context, name: &str) -> (r: Expr)
        ensures
            r@ == container(ctx@.env, name@),
    {
        if ctx.options().with_sendable {
            member(ident("collections"), name)
        } else {
            ident(name)
        }
    }

    /// The value that the field holds before it is set.
    pub fn default_value_expr(&self, ctx: &mut Context, include_message: bool) -> (r: Result<
        Expr,
        GenError,
    >)
        ensures
            final(ctx)@ == old(ctx)@.with_imports(
                default_value(self@, old(ctx)@.env, include_message).imports,
            ),
            expr_result(r) == default_value(self@, old(ctx)@.env, include_message).value,
    {
        let ghost env = ctx@.env;
        if self.has_oneof_index() {
            proof {
                lemma_with_no_imports(ctx@);
            }
            return Ok(undefined());
        }
        if ctx.options().with_sendable {
            ctx.get_sendable_import();
        }
        let ghost mid = ctx@;
        proof {
            lemma_with_no_imports(mid);
            lemma_with_imports_twice(old(ctx)@, container_imports(env), Set::empty());
            lemma_with_imports_twice(
                old(ctx)@,
                container_imports(env),
                env.type_ident(self@.type_ref).imports,
            );
        }
        if self.is_map(ctx) {
            Ok(new0(Self::container_expr(ctx, "Map")))
        } else if self.is_repeated() {
            if ctx.options().with_sendable {
                Ok(new0(Self::container_expr(ctx, "Array")))
            } else {
                let r = Expr::Array(Vec::new());
                assert(r@ == SpecExpr::Array(Seq::empty())) by {
                    assert(crate::ast::exprs_view(Seq::<Expr>::empty()) =~= Seq::<
                        SpecExpr,
                    >::empty());
                }
                Ok(r)
            }
        } else if self.is_enum() {
            match ctx.get_leading_enum_member(self.type_ref()) {
                Ok(n) => Ok(num(n as i64)),
                Err(e) => Err(e),
            }
        } else if self.is_message() {
            if include_message {
                match ctx.lazy_type_ref(self.type_ref()) {
                    Ok(id) => Ok(new0(ident(id.as_str()))),
                    Err(e) => Err(e),
                }
            } else {
                Ok(undefined())
            }
        } else if self.is_bytes() {
            Ok(new0(Self::container_expr(ctx, "Uint8Array")))
        } else if self.is_string() {
            match &self.default_value {
                Some(d) => Ok(str_lit(d.as_str())),
                None => {
                    let r = Expr::Str(String::new());
                    Ok(r)
                },
            }
        } else if self.is_bigint() {
            Ok(call1(ident("BigInt"), num(0)))
        } else if self.is_number() {
            match &self.default_value {
                None => Ok(num(0)),
                Some(text) => if is_number(text.as_str()) {
                    Ok(Expr::NumText(text.clone()))
                } else {
                    Err(GenError::MalformedDefault)
                },
            }
        } else if self.is_boolean() {
            match &self.default_value {
                None => Ok(Expr::Bool(false)),
                Some(text) => if str_eq(text.as_str(), "true") {
                    Ok(Expr::Bool(true))
                } else if str_eq(text.as_str(), "false") {
                    Ok(Expr::Bool(false))
                } else {
                    Err(GenError::MalformedDefault)
                },
            }
        } else {
            Ok(undefined())
        }
    }

    /// The type of one value of the field, whatever the field's label.
    fn base_ts_type(&self, ctx: &mut Context) -> (r: Result<Option<TsType>, GenError>)
        ensures
            final(ctx)@ == old(ctx)@.with_imports(base_type(self@, old(ctx)@.env).imports),
            type_result(r) == base_type(self@, old(ctx)@.env).value,
    {
        if self.is_enum() || self.is_message() {
            return match ctx.lazy_type_ref(self.type_ref()) {
                Ok(id) => Ok(Some(named_type(id.as_str()))),
                Err(e) => Err(e),
            };
        }
        proof {
            lemma_with_no_imports(ctx@);
        }
        if self.is_bytes() {
            if ctx.options().with_sendable {
                Ok(Some(named_type("collections.Uint8Array")))
            } else {
                Ok(Some(named_type("Uint8Array")))
            }
        } else if self.is_number() {
            Ok(Some(TsType::Keyword(TsKeyword::Number)))
        } else if self.is_bigint() {
            Ok(Some(TsType::Keyword(TsKeyword::BigInt)))
        } else if self.is_string() {
            Ok(Some(TsType::Keyword(TsKeyword::String)))
        } else if self.is_boolean() {
            Ok(Some(TsType::Keyword(TsKeyword::Boolean)))
        } else {
            Ok(None)
        }
    }

    /// The type of a map field.
    fn map_ts_type(&self, ctx: &mut Context) -> (r: Result<Option<TsType>, GenError>)
        ensures
            final(ctx)@ == old(ctx)@.with_imports(map_type(self@, old(ctx)@.env).imports),
            type_result(r) == map_type(self@, old(ctx)@.env).value,
    {
        let ghost env = ctx@.env;
        let entry = match ctx.get_map_type(self.type_ref()) {
            Ok(entry) => entry,
            Err(_) => {
                proof {
                    lemma_with_no_imports(ctx@);
                }
                return Err(GenError::UnknownMapEntry);
            },
        };
        let ghost k = base_type(entry@.field[0], env);
        let ghost v = base_type(entry@.field[1], env);
        let key_type = match entry.field[0].base_ts_type(ctx) {
            Ok(Some(t)) => t,
            Ok(None) => {
                return Err(GenError::UnknownMapEntry);
            },
            Err(e) => {
                return Err(e);
            },
        };
        let value = entry.field[1].base_ts_type(ctx);
        proof {
            lemma_with_imports_twice(old(ctx)@, k.imports, v.imports);
        }
        match value {
            Ok(Some(value_type)) => {
                if ctx.options().with_sendable {
                    Ok(Some(named_type2("collections.Map", key_type, value_type)))
                } else {
                    Ok(Some(named_type2("Map", key_type, value_type)))
                }
            },
            Ok(None) => Err(GenError::UnknownMapEntry),
            Err(e) => Err(e),
        }
    }

    /// The type of the field in the generated class.
    fn ts_type(&self, ctx: &mut Context) -> (r: Result<Option<TsType>, GenError>)
        ensures
            final(ctx)@ == old(ctx)@.with_imports(target_type(self@, old(ctx)@.env).imports),
            type_result(r) == target_type(self@, old(ctx)@.env).value,
    {
        if self.is_repeated() && self.is_map(ctx) {
            self.map_ts_type(ctx)
        } else if self.is_repeated() {
            match self.base_ts_type(ctx) {
                Ok(Some(t)) => {
                    if ctx.options().with_sendable {
                        Ok(Some(named_type1("collections.Array", t)))
                    } else {
                        Ok(Some(TsType::Array(Box::new(t))))
                    }
                },
                Ok(None) => Ok(None),
                Err(e) => Err(e),
            }
        } else {
            self.base_ts_type(ctx)
        }
    }

    /// The type annotation of the field's property.
    pub fn type_annotation(&self, ctx: &mut Context) -> (r: Result<Option<TsType>, GenError>)
        ensures
            final(ctx)@ == old(ctx)@.with_imports(target_type(self@, old(ctx)@.env).imports),
            type_result(r) == target_type(self@, old(ctx)@.env).value,
    {
        self.ts_type(ctx)
    }

    /// The type annotation of the field where it may be undefined.
    pub fn nullish_type_annotation(&self, ctx: &mut Context) -> (r: Result<
        Option<TsType>,
        GenError,
    >)
        ensures
            final(ctx)@ == old(ctx)@.with_imports(nullish_type(self@, old(ctx)@.env).imports),
            type_result(r) == nullish_type(self@, old(ctx)@.env).value,
    {
        match self.ts_type(ctx) {
            Ok(Some(t)) => Ok(Some(union2(t, TsType::Keyword(TsKeyword::Undefined)))),
            Ok(None) => Ok(None),
            Err(e) => Err(e),
        }
    }

    /// The property that the generated class declares for the field.
    pub fn print_prop<T: Runtime>(&self, ctx: &mut Context, _runtime: &T) -> (r: Result<
        ClassProp,
        GenError,
    >)
        ensures
            final(ctx)@ == old(ctx)@.with_imports(class_prop(self@, old(ctx)@.env).imports),
            prop_result(r) == class_prop(self@, old(ctx)@.env).value,
    {
        let ghost env = ctx@.env;
        let mut value: Option<Expr> = None;
        if ctx.syntax() == Syntax::Proto3 || self.is_repeated() || self.is_map(ctx)
            || !self.is_optional() {
            match self.default_value_expr(ctx, false) {
                Ok(e) => {
                    value = Some(e);
                },
                Err(e) => {
                    return Err(e);
                },
            }
        } else {
            proof {
                lemma_with_no_imports(ctx@);
            }
        }
        let key = self.prop_name();
        let optional = self.is_optional();
        let type_ann = self.type_annotation(ctx);
        proof {
            let v = if has_initializer(self@, env) {
                default_value(self@, env, false)
            } else {
                Gen::<SpecExpr>::pure(SpecExpr::undefined())
            };
            lemma_with_imports_twice(old(ctx)@, v.imports, target_type(self@, env).imports);
        }
        match type_ann {
            Ok(type_ann) => Ok(ClassProp { key, optional, value, type_ann }),
            Err(e) => Err(e),
        }
    }
}

} // verus!
