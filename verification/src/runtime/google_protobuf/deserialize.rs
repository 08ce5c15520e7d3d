//! The decoder of a generated class: a loop that reads one field tag after
//! the other and selects by the field number what to read.

use super::{rw_name, GooglePBRuntime};
use crate::ast::{
    args1, args2, arrow, arrow_block, assign, bin, call, call0, call1, cases_view, ident,
    if_else, lemma_cases_view_push, member, named_type, new0, new_of, non_null, not, not_eq,
    num, opt_member, params0, params1, stmts1, stmts2, stmts3, stmts_view, str_lit, undefined,
    while_loop, AssignOp, BinaryOp, Expr, SpecExpr, SpecParam, SpecStmt, SpecSwitchCase,
    SpecTsType, Stmt, SwitchCase, TsKeyword, TsType, VarKind,
};
use crate::common::field::{default_value, expr_result, target_type, FieldAccessor};
use crate::context::{
    each, lemma_each_failed, lemma_each_step, lemma_with_imports_twice, lemma_with_no_imports,
    Context, Gen, GenError, SpecEnv,
};
use crate::descriptor::{
    fields_view, DescriptorProto, FieldDescriptorProto, FieldType, SpecDescriptor, SpecField,
};
use vstd::prelude::*;
use vstd::string::*;

verus! {

/// `br.name()`
pub open spec fn reader_call(name: Seq<char>) -> SpecExpr {
    SpecExpr::call(SpecExpr::member(SpecExpr::ident("br"@), name), Seq::empty())
}

/// `(r: number) => r !== 0`
pub open spec fn non_zero_test() -> SpecExpr {
    SpecExpr::arrow(
        seq![SpecParam { name: "r"@, type_ann: Some(SpecTsType::Keyword(TsKeyword::Number)) }],
        SpecExpr::not_eq(SpecExpr::ident("r"@), SpecExpr::Num(0)),
    )
}

/// The expression that reads a field which is neither a map nor a
/// message. Where the field is packable and `force_unpacked` does not
/// forbid it, that is the packed run of its values, with each element of
/// a run of booleans tested against zero. Else it is one value: a 64-bit
/// integer made an arbitrary-precision integer, an unsigned 32-bit
/// integer shifted by zero bits to make it unsigned, a boolean tested
/// against zero, any other kind as the reader gives it.
pub open spec fn primitive_read(f: SpecField, force_unpacked: bool) -> SpecExpr {
    if f.is_packable() && !force_unpacked {
        let run = reader_call(rw_name("read"@, true, f.type_));
        if f.is_boolean() {
            SpecExpr::call(SpecExpr::member(run, "map"@), seq![non_zero_test()])
        } else {
            run
        }
    } else {
        let one = reader_call(rw_name("read"@, false, f.type_));
        if f.is_bigint() {
            SpecExpr::call(SpecExpr::ident("BigInt"@), seq![one])
        } else if f.type_ == FieldType::Uint32 {
            SpecExpr::bin(BinaryOp::ZeroFillRShift, one, SpecExpr::Num(0))
        } else if f.is_boolean() {
            SpecExpr::not_eq(one, SpecExpr::Num(0))
        } else {
            one
        }
    }
}

/// The expression that gives a message field an instance before it is read
/// into: `x ??= new T()`.
pub open spec fn message_preread(f: SpecField, env: SpecEnv, accessor: FieldAccessor) -> Gen<
    SpecExpr,
> {
    env.type_ident(f.type_ref).map(
        |id: Seq<char>|
            SpecExpr::assign(
                AssignOp::NullishAssign,
                accessor.spec_access(f),
                SpecExpr::new_of(SpecExpr::ident(id), Seq::empty()),
            ),
    )
}

/// The expression that reads a message field from a length-delimited
/// block: a new instance for one element of a repeated field,
/// `T.fromBinary(br.readBytes())`, and a merge into the instance that
/// the field holds for any other, `x.mergeFrom(br.readBytes())`.
pub open spec fn message_read(f: SpecField, env: SpecEnv, accessor: FieldAccessor) -> Gen<
    SpecExpr,
> {
    if f.is_repeated() {
        env.type_ident(f.type_ref).map(
            |id: Seq<char>|
                SpecExpr::call(
                    SpecExpr::member(SpecExpr::ident(id), "fromBinary"@),
                    seq![reader_call("readBytes"@)],
                ),
        )
    } else {
        Gen::pure(
            SpecExpr::call(
                SpecExpr::member(accessor.spec_access(f), "mergeFrom"@),
                seq![reader_call("readBytes"@)],
            ),
        )
    }
}

/// The expression that reads a field which is no map.
pub open spec fn plain_read(
    f: SpecField,
    env: SpecEnv,
    accessor: FieldAccessor,
    force_unpacked: bool,
) -> Gen<SpecExpr> {
    if f.is_message() {
        message_read(f, env, accessor)
    } else {
        Gen::pure(primitive_read(f, force_unpacked))
    }
}

/// `this.name?.method(args)`
pub open spec fn this_call(f: SpecField, method: Seq<char>, args: Seq<SpecExpr>) -> SpecExpr {
    SpecExpr::call(
        SpecExpr::opt_member(SpecExpr::member(SpecExpr::This, f.name), method),
        args,
    )
}

/// `Error("illegal zero tag.")`, thrown.
pub open spec fn zero_tag_case() -> SpecSwitchCase {
    SpecSwitchCase {
        test: Some(SpecExpr::Num(0)),
        cons: seq![
            SpecStmt::Throw(
                SpecExpr::new_of(
                    SpecExpr::ident("Error"@),
                    seq![SpecExpr::Str("illegal zero tag."@)],
                ),
            ),
        ],
    }
}

/// The arm without a test, which skips the field.
pub open spec fn unknown_tag_case() -> SpecSwitchCase {
    SpecSwitchCase { test: None, cons: seq![SpecStmt::Expr(reader_call("skipField"@))] }
}

/// The decoding loop around the arms of the known fields: while the reader
/// has a next field that does not end a group, select by the field
/// number. After the known fields come the arm for the number zero, which
/// throws, and the arm for any other number, which skips the field.
pub open spec fn decode_loop(cases: Seq<SpecSwitchCase>) -> SpecStmt {
    SpecStmt::while_loop(
        SpecExpr::and(reader_call("nextField"@), SpecExpr::not(reader_call("isEndGroup"@))),
        SpecStmt::Block(
            seq![
                SpecStmt::Switch(
                    reader_call("getFieldNumber"@),
                    cases.push(zero_tag_case()).push(unknown_tag_case()),
                ),
            ],
        ),
    )
}

/// What is read, wrapped for the alternate containers where the field is a
/// byte array.
pub open spec fn wrapped_read(f: SpecField, env: SpecEnv, read: SpecExpr) -> SpecExpr {
    if f.is_bytes() && env.options.with_sendable {
        SpecExpr::call(
            SpecExpr::member(
                SpecExpr::member(SpecExpr::ident("collections"@), "Uint8Array"@),
                "from"@,
            ),
            seq![read],
        )
    } else {
        read
    }
}

/// A packed run, made an alternate sequence where the options ask for the
/// alternate containers.
pub open spec fn wrapped_run(env: SpecEnv, run: SpecExpr) -> SpecExpr {
    if env.options.with_sendable {
        SpecExpr::call(
            SpecExpr::member(SpecExpr::member(SpecExpr::ident("collections"@), "Array"@), "from"@),
            seq![run],
        )
    } else {
        run
    }
}

/// The statements of the arm that reads a field, given the expression
/// `read` that reads it.
///
/// A map entry is read by the expression alone. A message that is not
/// repeated is given an instance and then read into. A packable field
/// tests whether what the reader stands at is length-delimited: if so the
/// field becomes the packed run, if not one value is appended to it. Any
/// other repeated field has the value appended, and any other field
/// becomes the value. The arm ends in a `break`.
pub open spec fn case_stmts(
    f: SpecField,
    env: SpecEnv,
    accessor: FieldAccessor,
    read: SpecExpr,
) -> Gen<Seq<SpecStmt>> {
    let r = wrapped_read(f, env, read);
    if env.is_map(f) {
        Gen::pure(seq![SpecStmt::Expr(r), SpecStmt::Break])
    } else if f.is_message() && !f.is_repeated() {
        message_preread(f, env, accessor).map(
            |pre: SpecExpr| seq![SpecStmt::Expr(pre), SpecStmt::Expr(r), SpecStmt::Break],
        )
    } else if f.is_packable() {
        Gen::pure(
            seq![
                SpecStmt::if_else(
                    reader_call("isDelimited"@),
                    SpecStmt::Expr(
                        SpecExpr::assign(
                            AssignOp::Assign,
                            accessor.spec_access(f),
                            wrapped_run(env, primitive_read(f, false)),
                        ),
                    ),
                    SpecStmt::Expr(this_call(f, "push"@, seq![primitive_read(f, true)])),
                ),
                SpecStmt::Break,
            ],
        )
    } else if f.is_repeated() {
        Gen::pure(seq![SpecStmt::Expr(this_call(f, "push"@, seq![r])), SpecStmt::Break])
    } else {
        Gen::pure(
            seq![
                SpecStmt::Expr(SpecExpr::assign(AssignOp::Assign, accessor.spec_access(f), r)),
                SpecStmt::Break,
            ],
        )
    }
}

/// The arm that reads a field which is no map: `case number:` and its
/// statements.
pub open spec fn plain_case(f: SpecField, env: SpecEnv, accessor: FieldAccessor) -> Gen<
    SpecSwitchCase,
> {
    plain_read(f, env, accessor, false).and_then(
        |read: SpecExpr|
            case_stmts(f, env, accessor, read).map(
                |cons: Seq<SpecStmt>|
                    SpecSwitchCase { test: Some(SpecExpr::Num(f.number)), cons: cons },
            ),
    )
}

/// What makes the arm of a field that is no map.
pub open spec fn plain_case_fn(env: SpecEnv, accessor: FieldAccessor) -> spec_fn(SpecField) -> Gen<
    SpecSwitchCase,
> {
    |f: SpecField| plain_case(f, env, accessor)
}

/// The arms of fields none of which is read as a map.
pub open spec fn plain_cases(fields: Seq<SpecField>, env: SpecEnv, accessor: FieldAccessor) -> Gen<
    Seq<SpecSwitchCase>,
> {
    each(fields, plain_case_fn(env, accessor))
}

/// The body of the function that reads one entry of a map field: locals
/// `key` and `value` that start as the defaults of the entry's two
/// fields, the decoding loop over those two fields as locals, and the
/// entry put into the map.
pub open spec fn map_entry_body(
    f: SpecField,
    key_type: Option<SpecTsType>,
    key_default: SpecExpr,
    value_type: Option<SpecTsType>,
    value_default: SpecExpr,
    cases: Seq<SpecSwitchCase>,
) -> Seq<SpecStmt> {
    seq![
        SpecStmt::Decl(VarKind::Let, "key"@, key_type, key_default),
        SpecStmt::Decl(VarKind::Let, "value"@, value_type, value_default),
        decode_loop(cases),
        SpecStmt::Expr(
            this_call(
                f,
                "set"@,
                seq![
                    SpecExpr::non_null(SpecExpr::ident("key"@)),
                    SpecExpr::non_null(SpecExpr::ident("value"@)),
                ],
            ),
        ),
    ]
}

/// The expression that reads one entry of a map field:
/// `br.readMessage(undefined, () => { ... })`.
pub open spec fn map_read(f: SpecField, env: SpecEnv) -> Gen<SpecExpr> {
    match env.map_entry(f.type_ref) {
        None => Gen::fail(GenError::UnknownMapEntry),
        Some(entry) => target_type(entry.field[0], env).and_then(
            |kt: Option<SpecTsType>|
                default_value(entry.field[0], env, true).and_then(
                    |kd: SpecExpr|
                        target_type(entry.field[1], env).and_then(
                            |vt: Option<SpecTsType>|
                                default_value(entry.field[1], env, true).and_then(
                                    |vd: SpecExpr|
                                        plain_cases(
                                            entry.field,
                                            env,
                                            FieldAccessor::BareLocal,
                                        ).map(
                                            |cases: Seq<SpecSwitchCase>|
                                                SpecExpr::call(
                                                    SpecExpr::member(
                                                        SpecExpr::ident("br"@),
                                                        "readMessage"@,
                                                    ),
                                                    seq![
                                                        SpecExpr::undefined(),
                                                        SpecExpr::ArrowBlock(
                                                            Seq::empty(),
                                                            map_entry_body(
                                                                f,
                                                                kt,
                                                                kd,
                                                                vt,
                                                                vd,
                                                                cases,
                                                            ),
                                                        ),
                                                    ],
                                                ),
                                        ),
                                ),
                        ),
                ),
        ),
    }
}

/// The expression that reads a field: an entry for a map field, a message
/// for a message field, a value or a packed run for any other.
pub open spec fn field_read(
    f: SpecField,
    env: SpecEnv,
    accessor: FieldAccessor,
    force_unpacked: bool,
) -> Gen<SpecExpr> {
    if env.is_map(f) {
        map_read(f, env)
    } else {
        plain_read(f, env, accessor, force_unpacked)
    }
}

/// The arm that reads a field: `case number:` and its statements.
pub open spec fn field_case(f: SpecField, env: SpecEnv, accessor: FieldAccessor) -> Gen<
    SpecSwitchCase,
> {
    field_read(f, env, accessor, false).and_then(
        |read: SpecExpr|
            case_stmts(f, env, accessor, read).map(
                |cons: Seq<SpecStmt>|
                    SpecSwitchCase { test: Some(SpecExpr::Num(f.number)), cons: cons },
            ),
    )
}

/// What makes the arm of a field.
pub open spec fn field_case_fn(env: SpecEnv, accessor: FieldAccessor) -> spec_fn(SpecField) -> Gen<
    SpecSwitchCase,
> {
    |f: SpecField| field_case(f, env, accessor)
}

/// The arms of the fields of a message.
pub open spec fn field_cases(fields: Seq<SpecField>, env: SpecEnv, accessor: FieldAccessor) -> Gen<
    Seq<SpecSwitchCase>,
> {
    each(fields, field_case_fn(env, accessor))
}

/// The decoder of a message: the decoding loop over the arms of its
/// fields.
pub open spec fn decoder(fields: Seq<SpecField>, env: SpecEnv, accessor: FieldAccessor) -> Gen<
    SpecStmt,
> {
    field_cases(fields, env, accessor).map(|cases: Seq<SpecSwitchCase>| decode_loop(cases))
}

/// The decoder of a map entry is the decoder of a message: the loop over
/// the two fields of a well-formed entry, none of which is read as a
/// map, is the loop that a message of those two fields gets.
pub proof fn lemma_entry_decoder(entry: SpecDescriptor, env: SpecEnv, accessor: FieldAccessor)
    requires
        entry.is_map_entry(),
    ensures
        plain_cases(entry.field, env, accessor) == field_cases(entry.field, env, accessor),
        plain_cases(entry.field, env, accessor).map(
            |cases: Seq<SpecSwitchCase>| decode_loop(cases),
        ) == decoder(entry.field, env, accessor),
{
    let plain = plain_case_fn(env, accessor);
    let general = field_case_fn(env, accessor);
    assert forall|i: int| 0 <= i < entry.field.len() implies plain(#[trigger] entry.field[i])
        == general(entry.field[i]) by {}
    crate::context::lemma_each_agrees(entry.field, plain, general);
}

/// The decoder behind a reader over the bytes handed in, where
/// `create_br` asks for the reader:
/// `const br: BinaryReader = new BinaryReader(bytes);`.
pub open spec fn decoder_setup(
    fields: Seq<SpecField>,
    env: SpecEnv,
    create_br: bool,
) -> Gen<Seq<SpecStmt>> {
    if create_br {
        decoder(fields, env, FieldAccessor::ThisMember).map(
            |d: SpecStmt|
                seq![
                    SpecStmt::Decl(
                        VarKind::Const,
                        "br"@,
                        Some(SpecTsType::Ref("BinaryReader"@, Seq::empty())),
                        SpecExpr::new_of(
                            SpecExpr::ident("BinaryReader"@),
                            seq![SpecExpr::ident("bytes"@)],
                        ),
                    ),
                    d,
                ],
        ).after(env.protobuf_imports())
    } else {
        decoder(fields, env, FieldAccessor::ThisMember).map(|d: SpecStmt| seq![d])
    }
}

/// The model of a step's result that is a statement.
pub open spec fn stmt_result(r: Result<Stmt, GenError>) -> Result<SpecStmt, GenError> {
    match r {
        Ok(s) => Ok(s@),
        Err(e) => Err(e),
    }
}

/// The model of a step's result that is a list of statements.
pub open spec fn stmts_result(r: Result<Vec<Stmt>, GenError>) -> Result<Seq<SpecStmt>, GenError> {
    match r {
        Ok(s) => Ok(stmts_view(s@)),
        Err(e) => Err(e),
    }
}

/// The model of a step's result that is an arm.
pub open spec fn case_result(r: Result<SwitchCase, GenError>) -> Result<SpecSwitchCase, GenError> {
    match r {
        Ok(c) => Ok(c@),
        Err(e) => Err(e),
    }
}

/// The model of a step's result that is a list of arms.
pub open spec fn cases_result(r: Result<Vec<SwitchCase>, GenError>) -> Result<
    Seq<SpecSwitchCase>,
    GenError,
> {
    match r {
        Ok(s) => Ok(cases_view(s@)),
        Err(e) => Err(e),
    }
}

impl GooglePBRuntime {
    /// `br.name()`
    fn reader_call(name: &str) -> (r: Expr)
        ensures
            r@ == reader_call(name@),
    {
        call0(member(ident("br"), name))
    }

    /// `this.name?.method(arg)`
    fn this_call1(field: &FieldDescriptorProto, method: &str, arg: Expr) -> (r: Expr)
        ensures
            r@ == this_call(field@, method@, seq![arg@]),
    {
        call1(opt_member(member(Expr::This, field.name()), method), arg)
    }

    /// The statements that set up the decoder of a message.
    pub fn deserialize_setup_inner(
        &self,
        ctx: &mut Context,
        descriptor: &DescriptorProto,
        create_br: bool,
    ) -> (r: Result<Vec<Stmt>, GenError>)
        ensures
            final(ctx)@ == old(ctx)@.with_imports(
                decoder_setup(descriptor@.field, old(ctx)@.env, create_br).imports,
            ),
            stmts_result(r) == decoder_setup(descriptor@.field, old(ctx)@.env, create_br).value,
    {
        let ghost env = ctx@.env;
        let ghost d = decoder(descriptor@.field, env, FieldAccessor::ThisMember);
        let mut stmts: Vec<Stmt> = Vec::new();
        if create_br {
            ctx.get_protobuf_import();
            let br_decl_init = new_of(ident("BinaryReader"), args1(ident("bytes")));
            let br_decl = Stmt::Decl(
                VarKind::Const,
                "br".to_owned(),
                Some(named_type("BinaryReader")),
                br_decl_init,
            );
            stmts.push(br_decl);
        }
        let loop_stmt = self.deserialize_stmt(ctx, descriptor, FieldAccessor::ThisMember, true);
        proof {
            if create_br {
                lemma_with_imports_twice(old(ctx)@, env.protobuf_imports(), d.imports);
            }
        }
        match loop_stmt {
            Ok(s) => {
                stmts.push(s);
                proof {
                    assert(stmts_view(stmts@) =~= decoder_setup(
                        descriptor@.field,
                        env,
                        create_br,
                    ).value->Ok_0);
                }
                Ok(stmts)
            },
            Err(e) => Err(e),
        }
    }

    /// The expression that gives a message field an instance before it is
    /// read into.
    pub fn deserialize_message_field_preread_expr(
        &self,
        ctx: &mut Context,
        field: &FieldDescriptorProto,
        accessor: FieldAccessor,
    ) -> (r: Result<Expr, GenError>)
        ensures
            final(ctx)@ == old(ctx)@.with_imports(
                message_preread(field@, old(ctx)@.env, accessor).imports,
            ),
            expr_result(r) == message_preread(field@, old(ctx)@.env, accessor).value,
    {
        match ctx.lazy_type_ref(field.type_ref()) {
            Ok(id) => Ok(
                assign(AssignOp::NullishAssign, accessor.access(field), new0(ident(id.as_str()))),
            ),
            Err(e) => Err(e),
        }
    }

    /// The expression that reads a message field from a length-delimited
    /// block.
    pub fn deserialize_message_field_expr(
        &self,
        ctx: &mut Context,
        field: &FieldDescriptorProto,
        accessor: FieldAccessor,
    ) -> (r: Result<Expr, GenError>)
        ensures
            final(ctx)@ == old(ctx)@.with_imports(
                message_read(field@, old(ctx)@.env, accessor).imports,
            ),
            expr_result(r) == message_read(field@, old(ctx)@.env, accessor).value,
    {
        let member_expr = if field.is_repeated() {
            match ctx.lazy_type_ref(field.type_ref()) {
                Ok(id) => member(ident(id.as_str()), "fromBinary"),
                Err(e) => {
                    return Err(e);
                },
            }
        } else {
            proof {
                lemma_with_no_imports(ctx@);
            }
            member(accessor.access(field), "mergeFrom")
        };
        Ok(call1(member_expr, Self::reader_call("readBytes")))
    }

    /// The expression that reads a field which is neither a map nor a
    /// message.
    pub fn deserialize_primitive_field_expr(
        &self,
        field: &FieldDescriptorProto,
        force_unpacked: bool,
    ) -> (r: Expr)
        ensures
            r@ == primitive_read(field@, force_unpacked),
    {
        if field.is_packable() && !force_unpacked {
            let name = self.rw_function_name("read", true, field);
            let run = Self::reader_call(name.as_str());
            if field.is_boolean() {
                call1(
                    member(run, "map"),
                    arrow(
                        params1("r", Some(TsType::Keyword(TsKeyword::Number))),
                        not_eq(ident("r"), num(0)),
                    ),
                )
            } else {
                run
            }
        } else {
            let name = self.rw_function_name("read", false, field);
            let one = Self::reader_call(name.as_str());
            if field.is_bigint() {
                call1(ident("BigInt"), one)
            } else if field.type_() == FieldType::Uint32 {
                bin(BinaryOp::ZeroFillRShift, one, num(0))
            } else if field.is_boolean() {
                not_eq(one, num(0))
            } else {
                one
            }
        }
    }

    /// The expression that reads one entry of a map field.
    pub fn deserialize_map_field_expr(&self, ctx: &mut Context, field: &FieldDescriptorProto) -> (r:
        Result<Expr, GenError>)
        ensures
            final(ctx)@ == old(ctx)@.with_imports(map_read(field@, old(ctx)@.env).imports),
            expr_result(r) == map_read(field@, old(ctx)@.env).value,
        decreases 1int,
    {
        let ghost env = ctx@.env;
        let ghost c0 = ctx@;
        let descriptor = match ctx.get_map_type(field.type_ref()) {
            Ok(d) => d,
            Err(_) => {
                proof {
                    lemma_with_no_imports(ctx@);
                }
                return Err(GenError::UnknownMapEntry);
            },
        };
        let key_field = &descriptor.field[0];
        let value_field = &descriptor.field[1];
        let ghost g1 = target_type(key_field@, env);
        let ghost g2 = default_value(key_field@, env, true);
        let ghost g3 = target_type(value_field@, env);
        let ghost g4 = default_value(value_field@, env, true);
        let ghost g5 = plain_cases(descriptor@.field, env, FieldAccessor::BareLocal);
        let key_type = match key_field.type_annotation(ctx) {
            Ok(t) => t,
            Err(e) => {
                return Err(e);
            },
        };
        let key_default = key_field.default_value_expr(ctx, true);
        assert(ctx@.env == env && ctx@.imports =~= c0.imports.union(g1.imports.union(g2.imports)));
        let key_default = match key_default {
            Ok(d) => d,
            Err(e) => {
                return Err(e);
            },
        };
        let value_type = value_field.type_annotation(ctx);
        assert(ctx@.env == env && ctx@.imports =~= c0.imports.union(
            g1.imports.union(g2.imports.union(g3.imports)),
        ));
        let value_type = match value_type {
            Ok(t) => t,
            Err(e) => {
                return Err(e);
            },
        };
        let value_default = value_field.default_value_expr(ctx, true);
        assert(ctx@.env == env && ctx@.imports =~= c0.imports.union(
            g1.imports.union(g2.imports.union(g3.imports.union(g4.imports))),
        ));
        let value_default = match value_default {
            Ok(d) => d,
            Err(e) => {
                return Err(e);
            },
        };
        let cases = self.deserialize_cases(ctx, &descriptor.field, FieldAccessor::BareLocal, true);
        assert(ctx@.env == env && ctx@.imports =~= c0.imports.union(
            g1.imports.union(g2.imports.union(g3.imports.union(g4.imports.union(g5.imports)))),
        ));
        let cases = match cases {
            Ok(c) => c,
            Err(e) => {
                return Err(e);
            },
        };
        let body = vec![
            Stmt::Decl(VarKind::Let, "key".to_owned(), key_type, key_default),
            Stmt::Decl(VarKind::Let, "value".to_owned(), value_type, value_default),
            Self::decode_loop(cases),
            Stmt::Expr(
                call(
                    opt_member(member(Expr::This, field.name()), "set"),
                    args2(non_null(ident("key")), non_null(ident("value"))),
                ),
            ),
        ];
        assert(stmts_view(body@) =~= map_entry_body(
            field@,
            g1.value->Ok_0,
            g2.value->Ok_0,
            g3.value->Ok_0,
            g4.value->Ok_0,
            g5.value->Ok_0,
        ));
        Ok(
            call(
                member(ident("br"), "readMessage"),
                args2(undefined(), arrow_block(params0(), body)),
            ),
        )
    }

    /// The expression that reads a field.
    pub fn deserialize_field_expr(
        &self,
        ctx: &mut Context,
        field: &FieldDescriptorProto,
        accessor: FieldAccessor,
        force_unpacked: bool,
    ) -> (r: Result<Expr, GenError>)
        ensures
            final(ctx)@ == old(ctx)@.with_imports(
                field_read(field@, old(ctx)@.env, accessor, force_unpacked).imports,
            ),
            expr_result(r) == field_read(field@, old(ctx)@.env, accessor, force_unpacked).value,
        decreases 2int,
    {
        if field.is_map(ctx) {
            self.deserialize_map_field_expr(ctx, field)
        } else {
            self.deserialize_plain_field_expr(ctx, field, accessor, force_unpacked)
        }
    }

    /// The expression that reads a field which is no map.
    fn deserialize_plain_field_expr(
        &self,
        ctx: &mut Context,
        field: &FieldDescriptorProto,
        accessor: FieldAccessor,
        force_unpacked: bool,
    ) -> (r: Result<Expr, GenError>)
        ensures
            final(ctx)@ == old(ctx)@.with_imports(
                plain_read(field@, old(ctx)@.env, accessor, force_unpacked).imports,
            ),
            expr_result(r) == plain_read(field@, old(ctx)@.env, accessor, force_unpacked).value,
    {
        if field.is_message() {
            self.deserialize_message_field_expr(ctx, field, accessor)
        } else {
            proof {
                lemma_with_no_imports(ctx@);
            }
            Ok(self.deserialize_primitive_field_expr(field, force_unpacked))
        }
    }

    /// The statements of the arm that reads a field, given the expression
    /// that reads it.
    fn deserialize_case_stmts(
        &self,
        ctx: &mut Context,
        field: &FieldDescriptorProto,
        accessor: FieldAccessor,
        read_expr: Expr,
    ) -> (r: Result<Vec<Stmt>, GenError>)
        ensures
            final(ctx)@ == old(ctx)@.with_imports(
                case_stmts(field@, old(ctx)@.env, accessor, read_expr@).imports,
            ),
            stmts_result(r) == case_stmts(field@, old(ctx)@.env, accessor, read_expr@).value,
    {
        let mut read_expr = read_expr;
        if field.is_bytes() && ctx.options().with_sendable {
            let from = member(member(ident("collections"), "Uint8Array"), "from");
            read_expr = call1(from, read_expr);
        }
        if field.is_message() && !field.is_repeated() && !field.is_map(ctx) {
            return match self.deserialize_message_field_preread_expr(ctx, field, accessor) {
                Ok(pre) => Ok(stmts3(Stmt::Expr(pre), Stmt::Expr(read_expr), Stmt::Break)),
                Err(e) => Err(e),
            };
        }
        proof {
            lemma_with_no_imports(ctx@);
        }
        let read_stmt = if field.is_map(ctx) {
            Stmt::Expr(read_expr)
        } else if field.is_packable() {
            let mut field_expr = self.deserialize_primitive_field_expr(field, false);
            if ctx.options().with_sendable {
                let from = member(member(ident("collections"), "Array"), "from");
                field_expr = call1(from, field_expr);
            }
            if_else(
                Self::reader_call("isDelimited"),
                Stmt::Expr(assign(AssignOp::Assign, accessor.access(field), field_expr)),
                Stmt::Expr(
                    Self::this_call1(
                        field,
                        "push",
                        self.deserialize_primitive_field_expr(field, true),
                    ),
                ),
            )
        } else if field.is_repeated() {
            Stmt::Expr(Self::this_call1(field, "push", read_expr))
        } else {
            Stmt::Expr(assign(AssignOp::Assign, accessor.access(field), read_expr))
        };
        Ok(stmts2(read_stmt, Stmt::Break))
    }

    /// The arm that reads a field.
    pub fn deserialize_case(
        &self,
        ctx: &mut Context,
        field: &FieldDescriptorProto,
        accessor: FieldAccessor,
    ) -> (r: Result<SwitchCase, GenError>)
        ensures
            final(ctx)@ == old(ctx)@.with_imports(
                field_case(field@, old(ctx)@.env, accessor).imports,
            ),
            case_result(r) == field_case(field@, old(ctx)@.env, accessor).value,
    {
        let ghost env = ctx@.env;
        let ghost g_read = field_read(field@, env, accessor, false);
        let read = match self.deserialize_field_expr(ctx, field, accessor, false) {
            Ok(r) => r,
            Err(e) => {
                return Err(e);
            },
        };
        let ghost g_stmts = case_stmts(field@, env, accessor, read@);
        let cons = self.deserialize_case_stmts(ctx, field, accessor, read);
        proof {
            lemma_with_imports_twice(old(ctx)@, g_read.imports, g_stmts.imports);
        }
        match cons {
            Ok(cons) => Ok(SwitchCase { test: Some(num(field.number() as i64)), cons }),
            Err(e) => Err(e),
        }
    }

    /// The arms of the fields, in order. With `nested` set no field is read
    /// as a map.
    fn deserialize_cases(
        &self,
        ctx: &mut Context,
        fields: &Vec<FieldDescriptorProto>,
        accessor: FieldAccessor,
        nested: bool,
    ) -> (r: Result<Vec<SwitchCase>, GenError>)
        ensures
            final(ctx)@ == old(ctx)@.with_imports(
                (if nested {
                    plain_cases(fields_view(fields@), old(ctx)@.env, accessor)
                } else {
                    field_cases(fields_view(fields@), old(ctx)@.env, accessor)
                }).imports,
            ),
            cases_result(r) == (if nested {
                plain_cases(fields_view(fields@), old(ctx)@.env, accessor)
            } else {
                field_cases(fields_view(fields@), old(ctx)@.env, accessor)
            }).value,
        decreases
                (if nested {
                    0int
                } else {
                    3int
                }),
    {
        let ghost env = ctx@.env;
        let ghost c0 = ctx@;
        let ghost fs = fields_view(fields@);
        let ghost case = if nested {
            plain_case_fn(env, accessor)
        } else {
            field_case_fn(env, accessor)
        };
        let mut cases: Vec<SwitchCase> = Vec::new();
        let mut i: usize = 0;
        proof {
            assert(cases_view(cases@) =~= Seq::<SpecSwitchCase>::empty());
        }
        while i < fields.len()
            invariant
                i <= fields@.len(),
                fs == fields_view(fields@),
                case == (if nested {
                    plain_case_fn(env, accessor)
                } else {
                    field_case_fn(env, accessor)
                }),
                ctx@.env == env,
                c0 == old(ctx)@,
                c0.env == env,
                each(fs.take(i as int), case).value == Ok::<Seq<SpecSwitchCase>, GenError>(
                    cases_view(cases@),
                ),
                ctx@.imports == c0.imports.union(each(fs.take(i as int), case).imports),
            decreases fields@.len() - i,
        {
            let field = &fields[i];
            let ghost prev = each(fs.take(i as int), case);
            proof {
                lemma_each_step(fs, case, i as int);
            }
            let read = if nested {
                self.deserialize_plain_field_expr(ctx, field, accessor, false)
            } else {
                self.deserialize_field_expr(ctx, field, accessor, false)
            };
            let ghost g_read = if nested {
                plain_read(field@, env, accessor, false)
            } else {
                field_read(field@, env, accessor, false)
            };
            assert(ctx@.env == env && ctx@.imports =~= c0.imports.union(
                prev.imports.union(g_read.imports),
            ));
            let read = match read {
                Ok(r) => r,
                Err(e) => {
                    proof {
                        lemma_each_failed(fs, case, i + 1);
                    }
                    return Err(e);
                },
            };
            let ghost g_stmts = case_stmts(field@, env, accessor, read@);
            let cons = self.deserialize_case_stmts(ctx, field, accessor, read);
            assert(ctx@.env == env && ctx@.imports =~= c0.imports.union(
                prev.imports.union(g_read.imports.union(g_stmts.imports)),
            ));
            let cons = match cons {
                Ok(c) => c,
                Err(e) => {
                    proof {
                        lemma_each_failed(fs, case, i + 1);
                    }
                    return Err(e);
                },
            };
            let ghost before = cases@;
            let arm = SwitchCase { test: Some(num(field.number() as i64)), cons };
            cases.push(arm);
            proof {
                lemma_cases_view_push(before, arm);
            }
            i += 1;
        }
        proof {
            assert(fs.take(i as int) =~= fs);
        }
        Ok(cases)
    }

    /// The decoding loop around the arms of the known fields.
    fn decode_loop(cases: Vec<SwitchCase>) -> (r: Stmt)
        ensures
            r@ == decode_loop(cases_view(cases@)),
    {
        let mut cases = cases;
        let ghost known = cases@;
        let zero = SwitchCase {
            test: Some(num(0)),
            cons: stmts1(Stmt::Throw(new_of(ident("Error"), args1(str_lit("illegal zero tag."))))),
        };
        // the tag zero is not legal
        cases.push(zero);
        let skip = SwitchCase {
            test: None,
            cons: stmts1(Stmt::Expr(Self::reader_call("skipField"))),
        };
        // fields that the message does not know
        cases.push(skip);
        proof {
            lemma_cases_view_push(known, zero);
            lemma_cases_view_push(known.push(zero), skip);
        }
        let switch_stmt = Stmt::Switch(Self::reader_call("getFieldNumber"), cases);
        let test = crate::ast::and(
            Self::reader_call("nextField"),
            not(Self::reader_call("isEndGroup")),
        );
        while_loop(test, Stmt::Block(stmts1(switch_stmt)))
    }

    /// The decoder of a message: the loop that reads the fields of
    /// `descriptor`, each reached through `accessor`. Fields with a number
    /// that the message does not know are skipped whatever
    /// `_add_unknown_fields` says.
    pub fn deserialize_stmt(
        &self,
        ctx: &mut Context,
        descriptor: &DescriptorProto,
        accessor: FieldAccessor,
        _add_unknown_fields: bool,
    ) -> (r: Result<Stmt, GenError>)
        ensures
            final(ctx)@ == old(ctx)@.with_imports(
                decoder(descriptor@.field, old(ctx)@.env, accessor).imports,
            ),
            stmt_result(r) == decoder(descriptor@.field, old(ctx)@.env, accessor).value,
    {
        match self.deserialize_cases(ctx, &descriptor.field, accessor, false) {
            Ok(cases) => Ok(Self::decode_loop(cases)),
            Err(e) => Err(e),
        }
    }
}

} // verus!
