//! The encoder of a generated class: for each field a test whether the
//! field is set, and what writes it.

use super::{rw_name, GooglePBRuntime};
use crate::ast::{
    and, args2, args3, arrow_block, call, call0, for_of, ident, if_then, lemma_stmts_view_push,
    member, new0, num, params0, stmts2, stmts_view, undefined, Binding, Expr, SpecBinding,
    SpecExpr, SpecStmt, Stmt, VarKind,
};
use crate::common::field::{
    map_to_string_normalizer, present_expr, to_string_normalizer, FieldAccessor,
};
use crate::context::{lemma_with_no_imports, Context, Gen, GenError, SpecEnv};
use crate::descriptor::{fields_view, DescriptorProto, FieldDescriptorProto, SpecField};
use crate::runtime::google_protobuf::deserialize::{stmt_result, stmts_result};
use vstd::prelude::*;
use vstd::string::*;

verus! {

/// `x.toString()`
pub open spec fn as_text(x: SpecExpr) -> SpecExpr {
    SpecExpr::call(SpecExpr::member(x, "toString"@), Seq::empty())
}

/// `x.map((v) => v.toString())`
pub open spec fn each_as_text(x: SpecExpr) -> SpecExpr {
    SpecExpr::call(
        SpecExpr::member(x, "map"@),
        seq![
            SpecExpr::arrow(
                seq![crate::ast::SpecParam { name: "v"@, type_ann: None }],
                as_text(SpecExpr::ident("v"@)),
            ),
        ],
    )
}

/// `bw.name(number, value)`
pub open spec fn writer_call(name: Seq<char>, number: int, value: SpecExpr) -> SpecExpr {
    SpecExpr::call(
        SpecExpr::member(SpecExpr::ident("bw"@), name),
        seq![SpecExpr::Num(number), value],
    )
}

/// The statement that writes one value `x` of a field under the field's
/// number: a message as the bytes of its own encoding, a 64-bit integer
/// as its decimal text, any other kind as it is.
pub open spec fn single_write(f: SpecField, x: SpecExpr) -> SpecStmt {
    if f.is_message() {
        SpecStmt::Expr(
            writer_call(
                "writeBytes"@,
                f.number,
                SpecExpr::call(SpecExpr::member(x, "toBinary"@), Seq::empty()),
            ),
        )
    } else if f.is_bigint() {
        SpecStmt::Expr(writer_call(rw_name("write"@, false, f.type_), f.number, as_text(x)))
    } else {
        SpecStmt::Expr(writer_call(rw_name("write"@, false, f.type_), f.number, x))
    }
}

/// The statement that writes all values `x` of a field as one
/// length-delimited block, 64-bit integers each as decimal text.
pub open spec fn packed_write(f: SpecField, x: SpecExpr) -> SpecStmt {
    if f.is_bigint() {
        SpecStmt::Expr(writer_call(rw_name("write"@, true, f.type_), f.number, each_as_text(x)))
    } else {
        SpecStmt::Expr(writer_call(rw_name("write"@, true, f.type_), f.number, x))
    }
}

/// What writes a field that is set and no map. A member of a oneof group
/// is written as one value whatever else holds of it. A packed field is
/// written as one block, any other repeated field value by value, each
/// under its own tag, and any other field as one value.
pub open spec fn write_body(f: SpecField, env: SpecEnv, x: SpecExpr) -> SpecStmt {
    if f.has_oneof_index() {
        single_write(f, x)
    } else if env.is_packed(f) {
        packed_write(f, x)
    } else if f.is_repeated() {
        SpecStmt::for_of(
            SpecBinding::Name("value"@),
            x,
            single_write(f, SpecExpr::ident("value"@)),
        )
    } else {
        single_write(f, x)
    }
}

/// The statement that writes a field which is no map, if the field is set:
/// `if (present) write`.
pub open spec fn plain_write(f: SpecField, env: SpecEnv, accessor: FieldAccessor) -> Result<
    SpecStmt,
    GenError,
> {
    match present_expr(f, env, accessor) {
        Ok(test) => Ok(SpecStmt::if_then(test, write_body(f, env, accessor.spec_access(f)))),
        Err(e) => Err(e),
    }
}

/// The statement that writes one entry of a map field: a length-delimited
/// block under the field's number that holds the key and the value, each
/// written as a field of the entry.
pub open spec fn entry_write(f: SpecField, key: SpecStmt, value: SpecStmt) -> SpecStmt {
    SpecStmt::Expr(
        SpecExpr::call(
            SpecExpr::member(SpecExpr::ident("bw"@), "writeMessage"@),
            seq![
                SpecExpr::Num(f.number),
                SpecExpr::undefined(),
                SpecExpr::ArrowBlock(Seq::empty(), seq![key, value]),
            ],
        ),
    )
}

/// The statement that writes a map field, if the field is set: one entry
/// after the other, `for (const [key, value] of x) ...`.
pub open spec fn map_write(f: SpecField, env: SpecEnv, accessor: FieldAccessor) -> Result<
    SpecStmt,
    GenError,
> {
    match present_expr(f, env, accessor) {
        Err(e) => Err(e),
        Ok(test) => match env.map_entry(f.type_ref) {
            None => Err(GenError::UnknownMapEntry),
            Some(entry) => match plain_write(entry.field[0], env, FieldAccessor::BareLocal) {
                Err(e) => Err(e),
                Ok(key) => match plain_write(entry.field[1], env, FieldAccessor::BareLocal) {
                    Err(e) => Err(e),
                    Ok(value) => Ok(
                        SpecStmt::if_then(
                            test,
                            SpecStmt::for_of(
                                SpecBinding::Pair("key"@, "value"@),
                                accessor.spec_access(f),
                                entry_write(f, key, value),
                            ),
                        ),
                    ),
                },
            },
        },
    }
}

/// The statement that writes a field, if the field is set.
pub open spec fn field_write(f: SpecField, env: SpecEnv, accessor: FieldAccessor) -> Result<
    SpecStmt,
    GenError,
> {
    if env.is_map(f) {
        map_write(f, env, accessor)
    } else {
        plain_write(f, env, accessor)
    }
}

/// The statements that write the fields, one statement for each field in
/// order; the error of the first field that has one.
pub open spec fn field_writes(
    fields: Seq<SpecField>,
    env: SpecEnv,
    accessor: FieldAccessor,
) -> Result<Seq<SpecStmt>, GenError>
    decreases fields.len(),
{
    if fields.len() == 0 {
        Ok(Seq::empty())
    } else {
        match field_writes(fields.drop_last(), env, accessor) {
            Err(e) => Err(e),
            Ok(writes) => match field_write(fields.last(), env, accessor) {
                Err(e) => Err(e),
                Ok(w) => Ok(writes.push(w)),
            },
        }
    }
}

/// `const bw = new BinaryWriter();`
pub open spec fn writer_decl() -> SpecStmt {
    SpecStmt::Decl(
        VarKind::Const,
        "bw"@,
        None,
        SpecExpr::new_of(SpecExpr::ident("BinaryWriter"@), Seq::empty()),
    )
}

/// `return bw.getResultBuffer();`
pub open spec fn writer_result() -> SpecStmt {
    SpecStmt::Return(
        SpecExpr::call(
            SpecExpr::member(SpecExpr::ident("bw"@), "getResultBuffer"@),
            Seq::empty(),
        ),
    )
}

/// The body of the encoder of a message. Where `create_bw` asks for it, the
/// writes stand between the declaration of the writer and the return of
/// what it wrote.
pub open spec fn encoder_setup(fields: Seq<SpecField>, env: SpecEnv, create_bw: bool) -> Gen<
    Seq<SpecStmt>,
> {
    let writes = field_writes(fields, env, FieldAccessor::ThisMember);
    if create_bw {
        Gen {
            value: match writes {
                Ok(ws) => Ok(seq![writer_decl()] + ws + seq![writer_result()]),
                Err(e) => Err(e),
            },
            imports: env.protobuf_imports(),
        }
    } else {
        Gen { value: writes, imports: Set::empty() }
    }
}

/// Once a field has failed, more fields change nothing.
proof fn lemma_field_writes_failed(
    fields: Seq<SpecField>,
    env: SpecEnv,
    accessor: FieldAccessor,
    i: int,
)
    requires
        0 <= i <= fields.len(),
        field_writes(fields.take(i), env, accessor) is Err,
    ensures
        field_writes(fields, env, accessor) == field_writes(fields.take(i), env, accessor),
    decreases fields.len() - i,
{
    if i < fields.len() {
        assert(fields.take(i + 1).drop_last() =~= fields.take(i));
        lemma_field_writes_failed(fields, env, accessor, i + 1);
    } else {
        assert(fields.take(i) =~= fields);
    }
}

impl GooglePBRuntime {
    /// `bw.name(number, value)`
    fn writer_call(name: &str, number: i32, value: Expr) -> (r: Expr)
        ensures
            r@ == writer_call(name@, number as int, value@),
    {
        call(member(ident("bw"), name), args2(num(number as i64), value))
    }

    /// The statement that writes one value of a field.
    fn serialize_single(&self, field: &FieldDescriptorProto, x: Expr) -> (r: Stmt)
        ensures
            r@ == single_write(field@, x@),
    {
        if field.is_message() {
            let bytes = call0(member(x, "toBinary"));
            Stmt::Expr(Self::writer_call("writeBytes", field.number(), bytes))
        } else {
            let name = self.rw_function_name("write", false, field);
            if field.is_bigint() {
                let text = to_string_normalizer(&x);
                Stmt::Expr(Self::writer_call(name.as_str(), field.number(), text))
            } else {
                Stmt::Expr(Self::writer_call(name.as_str(), field.number(), x))
            }
        }
    }

    /// The statement that writes all values of a field as one block.
    fn serialize_packed(&self, field: &FieldDescriptorProto, x: Expr) -> (r: Stmt)
        ensures
            r@ == packed_write(field@, x@),
    {
        let name = self.rw_function_name("write", true, field);
        if field.is_bigint() {
            Stmt::Expr(
                Self::writer_call(name.as_str(), field.number(), map_to_string_normalizer(&x)),
            )
        } else {
            Stmt::Expr(Self::writer_call(name.as_str(), field.number(), x))
        }
    }

    /// The statement that writes a field which is no map, if the field is
    /// set.
    pub fn serialize_plain_field_stmt(
        &self,
        ctx: &Context,
        field: &FieldDescriptorProto,
        accessor: FieldAccessor,
    ) -> (r: Result<Stmt, GenError>)
        ensures
            stmt_result(r) == plain_write(field@, ctx@.env, accessor),
    {
        let test = match field.default_value_bin_expr(ctx, accessor) {
            Ok(t) => t,
            Err(e) => {
                return Err(e);
            },
        };
        let body = if field.has_oneof_index() {
            self.serialize_single(field, accessor.access(field))
        } else if field.is_packed(ctx) {
            self.serialize_packed(field, accessor.access(field))
        } else if field.is_repeated() {
            for_of(
                Binding::Name("value".to_owned()),
                accessor.access(field),
                self.serialize_single(field, ident("value")),
            )
        } else {
            self.serialize_single(field, accessor.access(field))
        };
        Ok(if_then(test, body))
    }

    /// The statement that writes a map field, if the field is set.
    pub fn serialize_map_field_stmt(
        &self,
        ctx: &Context,
        field: &FieldDescriptorProto,
        accessor: FieldAccessor,
    ) -> (r: Result<Stmt, GenError>)
        ensures
            stmt_result(r) == map_write(field@, ctx@.env, accessor),
    {
        let test = match field.default_value_bin_expr(ctx, accessor) {
            Ok(t) => t,
            Err(e) => {
                return Err(e);
            },
        };
        let entry = match ctx.get_map_type(field.type_ref()) {
            Ok(d) => d,
            Err(_) => {
                return Err(GenError::UnknownMapEntry);
            },
        };
        let key = match self.serialize_plain_field_stmt(
            ctx,
            &entry.field[0],
            FieldAccessor::BareLocal,
        ) {
            Ok(s) => s,
            Err(e) => {
                return Err(e);
            },
        };
        let value = match self.serialize_plain_field_stmt(
            ctx,
            &entry.field[1],
            FieldAccessor::BareLocal,
        ) {
            Ok(s) => s,
            Err(e) => {
                return Err(e);
            },
        };
        let write = Stmt::Expr(
            call(
                member(ident("bw"), "writeMessage"),
                args3(num(field.number() as i64), undefined(), arrow_block(
                    params0(),
                    stmts2(key, value),
                )),
            ),
        );
        Ok(
            if_then(
                test,
                for_of(
                    Binding::Pair("key".to_owned(), "value".to_owned()),
                    accessor.access(field),
                    write,
                ),
            ),
        )
    }

    /// The statement that writes a field, if the field is set.
    pub fn serialize_field_stmt(
        &self,
        ctx: &Context,
        field: &FieldDescriptorProto,
        accessor: FieldAccessor,
    ) -> (r: Result<Stmt, GenError>)
        ensures
            stmt_result(r) == field_write(field@, ctx@.env, accessor),
    {
        if field.is_map(ctx) {
            self.serialize_map_field_stmt(ctx, field, accessor)
        } else {
            self.serialize_plain_field_stmt(ctx, field, accessor)
        }
    }

    /// The statements that write the fields of a message, each reached
    /// through `accessor`.
    pub fn serialize_stmts(
        &self,
        ctx: &Context,
        descriptor: &DescriptorProto,
        accessor: FieldAccessor,
    ) -> (r: Result<Vec<Stmt>, GenError>)
        ensures
            stmts_result(r) == field_writes(descriptor@.field, ctx@.env, accessor),
    {
        let ghost env = ctx@.env;
        let ghost fs = descriptor@.field;
        let mut stmts: Vec<Stmt> = Vec::new();
        let mut i: usize = 0;
        proof {
            assert(stmts_view(stmts@) =~= Seq::<SpecStmt>::empty());
        }
        while i < descriptor.field.len()
            invariant
                i <= descriptor.field@.len(),
                fs == fields_view(descriptor.field@),
                ctx@.env == env,
                field_writes(fs.take(i as int), env, accessor) == Ok::<Seq<SpecStmt>, GenError>(
                    stmts_view(stmts@),
                ),
            decreases descriptor.field@.len() - i,
        {
            let field = &descriptor.field[i];
            proof {
                assert(fs.take(i + 1).drop_last() =~= fs.take(i as int));
            }
            match self.serialize_field_stmt(ctx, field, accessor) {
                Ok(s) => {
                    proof {
                        lemma_stmts_view_push(stmts@, s);
                    }
                    stmts.push(s);
                },
                Err(e) => {
                    proof {
                        lemma_field_writes_failed(fs, env, accessor, i + 1);
                    }
                    return Err(e);
                },
            }
            i += 1;
        }
        proof {
            assert(fs.take(i as int) =~= fs);
        }
        Ok(stmts)
    }

    /// The body of the encoder of a message.
    pub fn serialize_setup_inner(
        &self,
        ctx: &mut Context,
        descriptor: &DescriptorProto,
        create_bw: bool,
    ) -> (r: Result<Vec<Stmt>, GenError>)
        ensures
            final(ctx)@ == old(ctx)@.with_imports(
                encoder_setup(descriptor@.field, old(ctx)@.env, create_bw).imports,
            ),
            stmts_result(r) == encoder_setup(descriptor@.field, old(ctx)@.env, create_bw).value,
    {
        if !create_bw {
            proof {
                lemma_with_no_imports(ctx@);
            }
            return self.serialize_stmts(ctx, descriptor, FieldAccessor::ThisMember);
        }
        ctx.get_protobuf_import();
        let mut stmts = match self.serialize_stmts(ctx, descriptor, FieldAccessor::ThisMember) {
            Ok(s) => s,
            Err(e) => {
                return Err(e);
            },
        };
        let ghost writes = stmts@;
        let decl = Stmt::Decl(VarKind::Const, "bw".to_owned(), None, new0(ident("BinaryWriter")));
        stmts.insert(0, decl);
        let ret = Stmt::Return(call0(member(ident("bw"), "getResultBuffer")));
        stmts.push(ret);
        assert(stmts_view(stmts@) =~= seq![writer_decl()] + stmts_view(writes) + seq![
            writer_result(),
        ]);
        Ok(stmts)
    }
}

} // verus!
