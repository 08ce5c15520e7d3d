//! A compilation: from the schema files of a request to the generated
//! classes of each file that the request asks for.

use crate::ast::{ClassProp, SpecClassProp, SpecStmt, Stmt, stmts_view};
use crate::common::field::{class_prop, FieldAccessor};
use crate::context::{
    each, failing_index, imports_view, lemma_each_failed, lemma_each_step, lemma_failing_index,
    syntax_of, Context, Descriptor, Gen, GenError, Import, SpecDescriptorKind, SpecEnv,
    SpecImport, SpecSymbol, Symbol, Syntax,
};
use crate::descriptor::{
    fields_view, DescriptorProto, EnumValueDescriptorProto, FieldDescriptorProto, SpecDescriptor,
    SpecEnumValue, SpecField,
};
use crate::mapper::{
    build_table, file_symbols, files_view, symbols_view, table_of, FileDescriptorProto,
    SpecFile,
};
use crate::options::{parse_options, Options};
use crate::runtime::google_protobuf::deserialize::{decoder_setup, field_case};
use crate::runtime::google_protobuf::serialize::{encoder_setup, field_write, field_writes};
use crate::runtime::google_protobuf::GooglePBRuntime;
use crate::text::{contains, replace, str_contains, str_replace};
use vstd::prelude::*;
use vstd::string::*;

verus! {

/// The generated class of one message: its properties, the body of its
/// encoder and the body of its decoder.
#[derive(Debug, PartialEq, Eq)]
pub struct Class {
    pub name: String,
    pub members: Vec<ClassProp>,
    pub to_binary: Vec<Stmt>,
    pub from_binary: Vec<Stmt>,
}

/// The model of a [`Class`].
pub struct SpecClass {
    pub name: Seq<char>,
    pub members: Seq<SpecClassProp>,
    pub to_binary: Seq<SpecStmt>,
    pub from_binary: Seq<SpecStmt>,
}

/// The models of a sequence of properties, in order.
pub open spec fn props_view(ps: Seq<ClassProp>) -> Seq<SpecClassProp> {
    Seq::new(ps.len(), |i: int| ps[i]@)
}

impl View for Class {
    type V = SpecClass;

    open spec fn view(&self) -> SpecClass {
        SpecClass {
            name: self.name@,
            members: props_view(self.members@),
            to_binary: stmts_view(self.to_binary@),
            from_binary: stmts_view(self.from_binary@),
        }
    }
}

/// The models of a sequence of classes, in order.
pub open spec fn classes_view(cs: Seq<Class>) -> Seq<SpecClass> {
    Seq::new(cs.len(), |i: int| cs[i]@)
}

/// The generated enum of one enum of the schema: its members in the order
/// of their declaration.
#[derive(Debug, PartialEq, Eq)]
pub struct EnumDecl {
    pub name: String,
    pub value: Vec<EnumValueDescriptorProto>,
}

/// The model of an [`EnumDecl`].
pub struct SpecEnumDecl {
    pub name: Seq<char>,
    pub value: Seq<SpecEnumValue>,
}

impl View for EnumDecl {
    type V = SpecEnumDecl;

    open spec fn view(&self) -> SpecEnumDecl {
        SpecEnumDecl {
            name: self.name@,
            value: Seq::new(self.value@.len(), |i: int| self.value@[i]@),
        }
    }
}

/// The models of a sequence of enums, in order.
pub open spec fn enum_decls_view(es: Seq<EnumDecl>) -> Seq<SpecEnumDecl> {
    Seq::new(es.len(), |i: int| es[i]@)
}

/// A generated file: its name, what it imports, its enums and its classes.
#[derive(Debug, PartialEq, Eq)]
pub struct File {
    pub name: String,
    pub imports: Vec<Import>,
    pub enums: Vec<EnumDecl>,
    pub classes: Vec<Class>,
}

/// The model of a [`File`]. The order of the imports does not count.
pub struct SpecOutput {
    pub name: Seq<char>,
    pub imports: Set<SpecImport>,
    pub enums: Seq<SpecEnumDecl>,
    pub classes: Seq<SpecClass>,
}

impl View for File {
    type V = SpecOutput;

    open spec fn view(&self) -> SpecOutput {
        SpecOutput {
            name: self.name@,
            imports: imports_view(self.imports@).to_set(),
            enums: enum_decls_view(self.enums@),
            classes: classes_view(self.classes@),
        }
    }
}

/// Where generation failed: the generated type of the message, the field,
/// and why.
#[derive(Debug, PartialEq, Eq)]
pub struct Failure {
    pub message: String,
    pub field: String,
    pub error: GenError,
}

/// The model of a [`Failure`].
pub struct SpecFailure {
    pub message: Seq<char>,
    pub field: Seq<char>,
    pub error: GenError,
}

impl View for Failure {
    type V = SpecFailure;

    open spec fn view(&self) -> SpecFailure {
        SpecFailure { message: self.message@, field: self.field@, error: self.error }
    }
}

/// Why a file was not generated.
#[derive(Debug, PartialEq, Eq)]
pub enum FileError {
    /// The file names a dialect that is neither `proto2` nor `proto3`.
    UnknownSyntax,
    /// Generation failed on one of the file's fields.
    Generation(Failure),
}

/// The model of a [`FileError`].
pub enum SpecFileError {
    UnknownSyntax,
    Generation(SpecFailure),
}

impl View for FileError {
    type V = SpecFileError;

    open spec fn view(&self) -> SpecFileError {
        match *self {
            FileError::UnknownSyntax => SpecFileError::UnknownSyntax,
            FileError::Generation(f) => SpecFileError::Generation(f@),
        }
    }
}

/// What became of one file that the request asked for.
#[derive(Debug, PartialEq, Eq)]
pub struct Outcome {
    /// The schema file.
    pub name: String,
    pub result: Result<File, FileError>,
}

/// The model of an [`Outcome`].
pub struct SpecOutcome {
    pub name: Seq<char>,
    pub result: Result<SpecOutput, SpecFileError>,
}

/// The model of the result of generating a file.
pub open spec fn file_result(r: Result<File, FileError>) -> Result<SpecOutput, SpecFileError> {
    match r {
        Ok(f) => Ok(f@),
        Err(e) => Err(e@),
    }
}

impl View for Outcome {
    type V = SpecOutcome;

    open spec fn view(&self) -> SpecOutcome {
        SpecOutcome { name: self.name@, result: file_result(self.result) }
    }
}

/// The models of a sequence of outcomes, in order.
pub open spec fn outcomes_view(os: Seq<Outcome>) -> Seq<SpecOutcome> {
    Seq::new(os.len(), |i: int| os[i]@)
}

/// A request: the schema files, the names of those to generate, and the
/// text of the options.
#[derive(Debug, PartialEq, Eq)]
pub struct CodeGeneratorRequest {
    pub file_to_generate: Vec<String>,
    pub parameter: String,
    pub proto_file: Vec<FileDescriptorProto>,
}

/// The model of a [`CodeGeneratorRequest`].
pub struct SpecRequest {
    pub file_to_generate: Seq<Seq<char>>,
    pub parameter: Seq<char>,
    pub proto_file: Seq<SpecFile>,
}

/// The models of a sequence of strings, in order.
pub open spec fn strings_view(ss: Seq<String>) -> Seq<Seq<char>> {
    Seq::new(ss.len(), |i: int| ss[i]@)
}

impl View for CodeGeneratorRequest {
    type V = SpecRequest;

    open spec fn view(&self) -> SpecRequest {
        SpecRequest {
            file_to_generate: strings_view(self.file_to_generate@),
            parameter: self.parameter@,
            proto_file: files_view(self.proto_file@),
        }
    }
}

/// The answer to a request: what became of each file asked for, and the
/// features that the generator supports.
#[derive(Debug, PartialEq, Eq)]
pub struct CodeGeneratorResponse {
    pub file: Vec<Outcome>,
    pub supported_features: u64,
}

/// Presence tracking of optional fields in the third dialect.
pub const FEATURE_PROTO3_OPTIONAL: u64 = 1;

/// Why a compilation did not start.
#[derive(Clone, Copy, Debug, PartialEq, Eq)]
pub enum CompileError {
    /// The text of the options gives a key that needs a value none.
    MalformedOptions,
}

/// What makes the property of a field.
pub open spec fn prop_fn(env: SpecEnv) -> spec_fn(SpecField) -> Gen<SpecClassProp> {
    |f: SpecField| class_prop(f, env)
}

/// The class of a message: the properties of its fields in order, its
/// encoder and its decoder.
pub open spec fn class_of(d: SpecDescriptor, ident: Seq<char>, env: SpecEnv) -> Gen<SpecClass> {
    each(d.field, prop_fn(env)).and_then(
        |members: Seq<SpecClassProp>|
            encoder_setup(d.field, env, true).and_then(
                |to_binary: Seq<SpecStmt>|
                    decoder_setup(d.field, env, true).map(
                        |from_binary: Seq<SpecStmt>|
                            SpecClass {
                                name: ident,
                                members: members,
                                to_binary: to_binary,
                                from_binary: from_binary,
                            },
                    ),
            ),
    )
}

/// Whether a class is generated for a symbol: for every message but the
/// synthetic entries of maps.
pub open spec fn is_class(s: SpecSymbol) -> bool {
    s.descriptor matches SpecDescriptorKind::Message(d) && !d.map_entry
}

/// The symbols for which a class is generated, in order.
pub open spec fn class_symbols(symbols: Seq<SpecSymbol>) -> Seq<SpecSymbol>
    decreases symbols.len(),
{
    if symbols.len() == 0 {
        Seq::empty()
    } else if is_class(symbols.last()) {
        class_symbols(symbols.drop_last()).push(symbols.last())
    } else {
        class_symbols(symbols.drop_last())
    }
}

/// The enums generated for the symbols: one for each enum, in order, under
/// the identifier of its symbol.
pub open spec fn enum_decls(symbols: Seq<SpecSymbol>) -> Seq<SpecEnumDecl>
    decreases symbols.len(),
{
    if symbols.len() == 0 {
        Seq::empty()
    } else {
        match symbols.last().descriptor {
            SpecDescriptorKind::Enum(e) => enum_decls(symbols.drop_last()).push(
                SpecEnumDecl { name: symbols.last().ident, value: e.value },
            ),
            SpecDescriptorKind::Message(_) => enum_decls(symbols.drop_last()),
        }
    }
}

/// What makes the class of a symbol.
pub open spec fn class_fn(env: SpecEnv) -> spec_fn(SpecSymbol) -> Gen<SpecClass> {
    |s: SpecSymbol| class_of(s.descriptor->Message_0, s.ident, env)
}

/// The name of the file generated from a schema file.
pub open spec fn output_name(name: Seq<char>) -> Seq<char> {
    replace(name, ".proto"@, ".ets"@)
}

/// The environment in which a file is generated: that of the compilation,
/// with the file's own name and dialect.
pub open spec fn file_env(f: SpecFile, syntax: Syntax, base: SpecEnv) -> SpecEnv {
    SpecEnv { syntax: syntax, name: f.name, ..base }
}

/// Whether a field cannot be generated: its property, the statement that
/// writes it or the arm that reads it.
pub open spec fn cannot_generate(f: SpecField, env: SpecEnv) -> bool {
    ||| class_prop(f, env).value is Err
    ||| field_write(f, env, FieldAccessor::ThisMember) is Err
    ||| field_case(f, env, FieldAccessor::ThisMember).value is Err
}

/// The index of the first field that cannot be generated, if there is one.
pub open spec fn first_failing(fields: Seq<SpecField>, env: SpecEnv) -> Option<int>
    decreases fields.len(),
{
    if fields.len() == 0 {
        None
    } else {
        match first_failing(fields.drop_last(), env) {
            Some(i) => Some(i),
            None => if cannot_generate(fields.last(), env) {
                Some(fields.len() - 1)
            } else {
                None
            },
        }
    }
}

/// The name of the first field that cannot be generated, or nothing where
/// every field can.
pub open spec fn failing_field(fields: Seq<SpecField>, env: SpecEnv) -> Seq<char> {
    match first_failing(fields, env) {
        Some(i) => fields[i].name,
        None => Seq::empty(),
    }
}

/// The file generated from a schema file: the classes of its messages in
/// the order of their declaration, and what they import. There is none
/// where the dialect is unknown or a field cannot be generated; the
/// failure then names the first message that cannot be generated, and
/// the first of its fields that cannot.
pub open spec fn file_output(f: SpecFile, base: SpecEnv) -> Result<SpecOutput, SpecFileError> {
    match syntax_of(f.syntax) {
        None => Err(SpecFileError::UnknownSyntax),
        Some(syntax) => {
            let env = file_env(f, syntax, base);
            let symbols = class_symbols(file_symbols(f));
            let classes = each(symbols, class_fn(env));
            match classes.value {
                Err(e) => {
                    let failed = symbols[failing_index(symbols, class_fn(env))];
                    Err(
                        SpecFileError::Generation(
                            SpecFailure {
                                message: failed.ident,
                                field: failing_field(failed.descriptor->Message_0.field, env),
                                error: e,
                            },
                        ),
                    )
                },
                Ok(cs) => Ok(
                    SpecOutput {
                        name: output_name(f.name),
                        imports: classes.imports,
                        enums: enum_decls(file_symbols(f)),
                        classes: cs,
                    },
                ),
            }
        },
    }
}

/// Whether a schema file is generated: the request asks for it, and it is
/// not the schema of the descriptors themselves.
pub open spec fn is_generated(to_generate: Seq<Seq<char>>, f: SpecFile) -> bool {
    to_generate.contains(f.name) && !contains(f.name, "descriptor.proto"@)
}

/// What becomes of the files: an outcome for each generated file, in the
/// order of the files. One file's failure leaves the others as they are.
pub open spec fn outcomes(to_generate: Seq<Seq<char>>, files: Seq<SpecFile>, base: SpecEnv) -> Seq<
    SpecOutcome,
>
    decreases files.len(),
{
    if files.len() == 0 {
        Seq::empty()
    } else {
        let before = outcomes(to_generate, files.drop_last(), base);
        let f = files.last();
        if is_generated(to_generate, f) {
            before.push(SpecOutcome { name: f.name, result: file_output(f, base) })
        } else {
            before
        }
    }
}

/// The environment of a compilation: its options and the types that its
/// files declare.
pub open spec fn compilation_env(req: SpecRequest) -> Option<SpecEnv> {
    match parse_options(req.parameter) {
        None => None,
        Some(options) => Some(
            SpecEnv {
                options: options,
                syntax: Syntax::Unspecified,
                name: Seq::empty(),
                symbols: table_of(req.proto_file),
            },
        ),
    }
}

/// The model of a step's result that is a class.
pub open spec fn class_result(r: Result<Class, GenError>) -> Result<SpecClass, GenError> {
    match r {
        Ok(c) => Ok(c@),
        Err(e) => Err(e),
    }
}

/// The model of a step's result that is a list of properties.
pub open spec fn props_result(r: Result<Vec<ClassProp>, GenError>) -> Result<
    Seq<SpecClassProp>,
    GenError,
> {
    match r {
        Ok(p) => Ok(props_view(p@)),
        Err(e) => Err(e),
    }
}

/// What `first_failing` finds is a field that cannot be generated, behind
/// fields that all can; it finds none where every field can.
proof fn lemma_first_failing(fields: Seq<SpecField>, env: SpecEnv)
    ensures
        match first_failing(fields, env) {
            Some(i) => 0 <= i < fields.len() && cannot_generate(fields[i], env) && forall|j: int|
                0 <= j < i ==> !cannot_generate(#[trigger] fields[j], env),
            None => forall|j: int|
                0 <= j < fields.len() ==> !cannot_generate(#[trigger] fields[j], env),
        },
    decreases fields.len(),
{
    if fields.len() > 0 {
        let shorter = fields.drop_last();
        lemma_first_failing(shorter, env);
        assert forall|j: int| 0 <= j < shorter.len() implies shorter[j] == fields[j] by {}
        match first_failing(shorter, env) {
            Some(i) => {
                assert forall|j: int| 0 <= j < i implies !cannot_generate(
                    #[trigger] fields[j],
                    env,
                ) by {}
            },
            None => {
                assert forall|j: int| 0 <= j < fields.len() - 1 implies !cannot_generate(
                    #[trigger] fields[j],
                    env,
                ) by {}
            },
        }
    }
}

/// The first field of a message that cannot be generated, if there is one.
pub fn first_failing_field(
    ctx: &Context,
    runtime: &GooglePBRuntime,
    fields: &Vec<FieldDescriptorProto>,
) -> (r: Option<usize>)
    ensures
        match r {
            Some(i) => i < fields@.len() && first_failing(fields_view(fields@), ctx@.env) == Some(
                i as int,
            ),
            None => first_failing(fields_view(fields@), ctx@.env) is None,
        },
{
    let ghost env = ctx@.env;
    let ghost fs = fields_view(fields@);
    let mut i: usize = 0;
    while i < fields.len()
        invariant
            i <= fields@.len(),
            fs == fields_view(fields@),
            ctx@.env == env,
            first_failing(fs.take(i as int), env) is None,
        decreases fields@.len() - i,
    {
        let field = &fields[i];
        proof {
            assert(fs.take(i + 1).drop_last() =~= fs.take(i as int));
        }
        let mut scratch = ctx.fork(ctx.name().to_owned(), ctx.syntax());
        let prop_fails = field.print_prop(&mut scratch, runtime).is_err();
        let write_fails = runtime.serialize_field_stmt(
            ctx,
            field,
            FieldAccessor::ThisMember,
        ).is_err();
        let case_fails = runtime.deserialize_case(
            &mut scratch,
            field,
            FieldAccessor::ThisMember,
        ).is_err();
        if prop_fails || write_fails || case_fails {
            proof {
                lemma_first_failing_prefix(fs, env, i + 1);
            }
            return Some(i);
        }
        i += 1;
    }
    assert(fs.take(i as int) =~= fs);
    None
}

/// What fails among the first fields is what fails first among all.
proof fn lemma_first_failing_prefix(fields: Seq<SpecField>, env: SpecEnv, k: int)
    requires
        0 <= k <= fields.len(),
        first_failing(fields.take(k), env) is Some,
    ensures
        first_failing(fields, env) == first_failing(fields.take(k), env),
    decreases fields.len() - k,
{
    if k < fields.len() {
        assert(fields.take(k + 1).drop_last() =~= fields.take(k));
        lemma_first_failing_prefix(fields, env, k + 1);
    } else {
        assert(fields.take(k) =~= fields);
    }
}

/// A message whose class cannot be generated has a field that cannot.
pub proof fn lemma_failing_class(d: SpecDescriptor, ident: Seq<char>, env: SpecEnv)
    requires
        class_of(d, ident, env).value is Err,
    ensures
        first_failing(d.field, env) is Some,
{
    lemma_first_failing(d.field, env);
    let props = each(d.field, prop_fn(env));
    if props.value is Err {
        crate::context::lemma_failing_item(d.field, prop_fn(env));
    } else if encoder_setup(d.field, env, true).value is Err {
        lemma_failing_write(d.field, env);
    } else {
        let step = crate::runtime::google_protobuf::deserialize::field_case_fn(
            env,
            FieldAccessor::ThisMember,
        );
        crate::context::lemma_failing_item(d.field, step);
    }
}

/// Where the writes of the fields fail, the write of one of them fails.
proof fn lemma_failing_write(fields: Seq<SpecField>, env: SpecEnv)
    requires
        field_writes(fields, env, FieldAccessor::ThisMember) is Err,
    ensures
        exists|i: int|
            0 <= i < fields.len() && field_write(
                #[trigger] fields[i],
                env,
                FieldAccessor::ThisMember,
            ) is Err,
    decreases fields.len(),
{
    if fields.len() > 0 {
        if field_writes(fields.drop_last(), env, FieldAccessor::ThisMember) is Err {
            lemma_failing_write(fields.drop_last(), env);
        }
    }
}

/// The properties of the fields of a message, in order.
pub fn print_props(
    ctx: &mut Context,
    runtime: &GooglePBRuntime,
    fields: &Vec<FieldDescriptorProto>,
) -> (r: Result<Vec<ClassProp>, GenError>)
    ensures
        final(ctx)@ == old(ctx)@.with_imports(
            each(fields_view(fields@), prop_fn(old(ctx)@.env)).imports,
        ),
        props_result(r) == each(fields_view(fields@), prop_fn(old(ctx)@.env)).value,
{
    let ghost env = ctx@.env;
    let ghost c0 = ctx@;
    let ghost fs = fields_view(fields@);
    let ghost step = prop_fn(env);
    let mut props: Vec<ClassProp> = Vec::new();
    let mut i: usize = 0;
    proof {
        assert(props_view(props@) =~= Seq::<SpecClassProp>::empty());
    }
    while i < fields.len()
        invariant
            i <= fields@.len(),
            fs == fields_view(fields@),
            step == prop_fn(env),
            ctx@.env == env,
            c0 == old(ctx)@,
            c0.env == env,
            each(fs.take(i as int), step).value == Ok::<Seq<SpecClassProp>, GenError>(
                props_view(props@),
            ),
            ctx@.imports == c0.imports.union(each(fs.take(i as int), step).imports),
        decreases fields@.len() - i,
    {
        let field = &fields[i];
        let ghost prev = each(fs.take(i as int), step);
        let ghost g = class_prop(field@, env);
        proof {
            lemma_each_step(fs, step, i as int);
        }
        let prop = field.print_prop(ctx, runtime);
        proof {
            assert(ctx@.imports =~= c0.imports.union(prev.imports.union(g.imports)));
        }
        match prop {
            Ok(p) => {
                let ghost before = props@;
                props.push(p);
                assert(props_view(props@) =~= props_view(before).push(p@));
            },
            Err(e) => {
                proof {
                    lemma_each_failed(fs, step, i + 1);
                }
                return Err(e);
            },
        }
        i += 1;
    }
    proof {
        assert(fs.take(i as int) =~= fs);
    }
    Ok(props)
}

/// The class of a message under the given name.
pub fn print_class(
    ctx: &mut Context,
    runtime: &GooglePBRuntime,
    descriptor: &DescriptorProto,
    ident: &str,
) -> (r: Result<Class, GenError>)
    ensures
        final(ctx)@ == old(ctx)@.with_imports(
            class_of(descriptor@, ident@, old(ctx)@.env).imports,
        ),
        class_result(r) == class_of(descriptor@, ident@, old(ctx)@.env).value,
{
    let ghost env = ctx@.env;
    let ghost c0 = ctx@;
    let ghost g1 = each(descriptor@.field, prop_fn(env));
    let ghost g2 = encoder_setup(descriptor@.field, env, true);
    let ghost g3 = decoder_setup(descriptor@.field, env, true);
    let members = match print_props(ctx, runtime, &descriptor.field) {
        Ok(m) => m,
        Err(e) => {
            return Err(e);
        },
    };
    let to_binary = runtime.serialize_setup_inner(ctx, descriptor, true);
    assert(ctx@.env == env && ctx@.imports =~= c0.imports.union(g1.imports.union(g2.imports)));
    let to_binary = match to_binary {
        Ok(s) => s,
        Err(e) => {
            return Err(e);
        },
    };
    let from_binary = runtime.deserialize_setup_inner(ctx, descriptor, true);
    assert(ctx@.env == env && ctx@.imports =~= c0.imports.union(
        g1.imports.union(g2.imports.union(g3.imports)),
    ));
    match from_binary {
        Ok(from_binary) => Ok(Class { name: ident.to_owned(), members, to_binary, from_binary }),
        Err(e) => Err(e),
    }
}

/// The enums generated for the symbols.
pub fn print_enums(symbols: &Vec<Symbol>) -> (r: Vec<EnumDecl>)
    ensures
        enum_decls_view(r@) == enum_decls(symbols_view(symbols@)),
{
    let ghost syms = symbols_view(symbols@);
    let mut enums: Vec<EnumDecl> = Vec::new();
    let mut i: usize = 0;
    while i < symbols.len()
        invariant
            i <= symbols@.len(),
            syms == symbols_view(symbols@),
            enum_decls_view(enums@) == enum_decls(syms.take(i as int)),
        decreases symbols@.len() - i,
    {
        let symbol = &symbols[i];
        proof {
            assert(syms.take(i + 1).drop_last() =~= syms.take(i as int));
        }
        match symbol.descriptor {
            Descriptor::Enum(e) => {
                let mut value: Vec<EnumValueDescriptorProto> = Vec::new();
                let mut k: usize = 0;
                while k < e.value.len()
                    invariant
                        k <= e.value@.len(),
                        value@.len() == k,
                        forall|j: int| 0 <= j < k ==> (#[trigger] value@[j])@ == e.value@[j]@,
                    decreases e.value@.len() - k,
                {
                    let member = &e.value[k];
                    value.push(
                        EnumValueDescriptorProto {
                            name: member.name.clone(),
                            number: member.number,
                        },
                    );
                    k += 1;
                }
                let decl = EnumDecl { name: symbol.ident.clone(), value };
                assert(decl@.value =~= e@.value);
                enums.push(decl);
            },
            Descriptor::Message(_) => {},
        }
        i += 1;
    }
    assert(syms.take(i as int) =~= syms);
    enums
}

/// Where the class of a message failed.
fn failure_of(
    ctx: &Context,
    runtime: &GooglePBRuntime,
    descriptor: &DescriptorProto,
    ident: &str,
    error: GenError,
) -> (r: Failure)
    ensures
        r@ == (SpecFailure {
            message: ident@,
            field: failing_field(descriptor@.field, ctx@.env),
            error: error,
        }),
{
    let field = match first_failing_field(ctx, runtime, &descriptor.field) {
        Some(k) => descriptor.field[k].name.clone(),
        None => String::new(),
    };
    Failure { message: ident.to_owned(), field, error }
}

/// The file generated from a schema file, in a compilation whose context
/// is `base`.
pub fn generate_file<'a>(
    base: &Context<'a>,
    runtime: &GooglePBRuntime,
    file: &'a FileDescriptorProto,
) -> (r: Result<File, FileError>)
    ensures
        file_result(r) == file_output(file@, base@.env),
        r matches Ok(f) ==> imports_view(f.imports@).no_duplicates(),
{
    let syntax = match Syntax::parse(file.syntax.as_str()) {
        Some(s) => s,
        None => {
            return Err(FileError::UnknownSyntax);
        },
    };
    let mut ctx = base.fork(file.name.clone(), syntax);
    let ghost env = ctx@.env;
    let symbols = file.symbols();
    let ghost syms = symbols_view(symbols@);
    let ghost step = class_fn(env);
    let mut classes: Vec<Class> = Vec::new();
    let mut i: usize = 0;
    proof {
        assert(classes_view(classes@) =~= Seq::<SpecClass>::empty());
    }
    while i < symbols.len()
        invariant
            i <= symbols@.len(),
            syms == symbols_view(symbols@),
            syms == file_symbols(file@),
            step == class_fn(env),
            ctx@.env == env,
            env == file_env(file@, syntax, base@.env),
            syntax_of(file@.syntax) == Some(syntax),
            each(class_symbols(syms.take(i as int)), step).value == Ok::<Seq<SpecClass>, GenError>(
                classes_view(classes@),
            ),
            ctx@.imports == each(class_symbols(syms.take(i as int)), step).imports,
        decreases symbols@.len() - i,
    {
        let symbol = &symbols[i];
        let ghost done = class_symbols(syms.take(i as int));
        proof {
            assert(syms.take(i + 1).drop_last() =~= syms.take(i as int));
        }
        match symbol.descriptor {
            Descriptor::Message(d) => {
                if !d.map_entry {
                    let ghost now = done.push(symbol@);
                    proof {
                        assert(now.take(done.len() as int) =~= done);
                    }
                    let class = print_class(&mut ctx, runtime, d, symbol.ident.as_str());
                    match class {
                        Ok(c) => {
                            let ghost before = classes@;
                            classes.push(c);
                            assert(classes_view(classes@) =~= classes_view(before).push(c@));
                        },
                        Err(e) => {
                            proof {
                                lemma_class_symbols_prefix(syms, i + 1);
                                lemma_each_failed(
                                    class_symbols(syms),
                                    step,
                                    now.len() as int,
                                );
                                let all = class_symbols(syms);
                                assert(all.take(done.len() as int) =~= now.take(
                                    done.len() as int,
                                ));
                                lemma_failing_index(all, step, done.len() as int);
                            }
                            return Err(
                                FileError::Generation(
                                    failure_of(&ctx, runtime, d, symbol.ident.as_str(), e),
                                ),
                            );
                        },
                    }
                }
            },
            Descriptor::Enum(_) => {},
        }
        i += 1;
    }
    proof {
        assert(syms.take(i as int) =~= syms);
    }
    let imports = ctx.drain_imports();
    let enums = print_enums(&symbols);
    let name = str_replace(file.name.as_str(), ".proto", ".ets");
    Ok(File { name, imports, enums, classes })
}

/// The class symbols among the first `i` symbols are the first of the class
/// symbols among all.
proof fn lemma_class_symbols_prefix(symbols: Seq<SpecSymbol>, i: int)
    requires
        0 <= i <= symbols.len(),
    ensures
        class_symbols(symbols.take(i)).len() <= class_symbols(symbols).len(),
        class_symbols(symbols).take(class_symbols(symbols.take(i)).len() as int) == class_symbols(
            symbols.take(i),
        ),
    decreases symbols.len() - i,
{
    if i < symbols.len() {
        lemma_class_symbols_prefix(symbols, i + 1);
        assert(symbols.take(i + 1).drop_last() =~= symbols.take(i));
    } else {
        assert(symbols.take(i) =~= symbols);
    }
}

/// Whether the list holds the name.
fn names_contain(names: &Vec<String>, name: &str) -> (r: bool)
    ensures
        r == strings_view(names@).contains(name@),
{
    let mut i: usize = 0;
    while i < names.len()
        invariant
            i <= names@.len(),
            forall|j: int| 0 <= j < i ==> strings_view(names@)[j] != name@,
        decreases names@.len() - i,
    {
        if crate::text::str_eq(names[i].as_str(), name) {
            assert(strings_view(names@)[i as int] == name@);
            return true;
        }
        i += 1;
    }
    false
}

/// Compiles a request: reads its options, finds the types that its files
/// declare, and generates each file that it asks for.
pub fn compile(request: &CodeGeneratorRequest) -> (r: Result<CodeGeneratorResponse, CompileError>)
    ensures
        match r {
            Ok(response) => compilation_env(request@) is Some && outcomes_view(response.file@)
                == outcomes(
                request@.file_to_generate,
                request@.proto_file,
                compilation_env(request@)->Some_0,
            ) && response.supported_features == FEATURE_PROTO3_OPTIONAL,
            Err(e) => compilation_env(request@) is None && e == CompileError::MalformedOptions,
        },
{
    let options = match Options::try_parse(request.parameter.as_str()) {
        Some(o) => o,
        None => {
            return Err(CompileError::MalformedOptions);
        },
    };
    // walk the descriptors to find what the schema files declare
    let table = build_table(&request.proto_file);
    let ctx = Context::new(&options, &table, Syntax::Unspecified);
    let runtime = GooglePBRuntime::new();
    let ghost base = ctx@.env;
    let ghost files = files_view(request.proto_file@);
    let ghost wanted = strings_view(request.file_to_generate@);
    let mut outputs: Vec<Outcome> = Vec::new();
    let mut i: usize = 0;
    while i < request.proto_file.len()
        invariant
            i <= request.proto_file@.len(),
            files == files_view(request.proto_file@),
            wanted == strings_view(request.file_to_generate@),
            ctx@.env == base,
            outcomes_view(outputs@) == outcomes(wanted, files.take(i as int), base),
        decreases request.proto_file@.len() - i,
    {
        let descriptor = &request.proto_file[i];
        proof {
            assert(files.take(i + 1).drop_last() =~= files.take(i as int));
        }
        if names_contain(&request.file_to_generate, descriptor.name.as_str()) && !str_contains(
            descriptor.name.as_str(),
            "descriptor.proto",
        ) {
            let result = generate_file(&ctx, &runtime, descriptor);
            let outcome = Outcome { name: descriptor.name.clone(), result };
            outputs.push(outcome);
        }
        i += 1;
    }
    proof {
        assert(files.take(i as int) =~= files);
    }
    Ok(CodeGeneratorResponse { file: outputs, supported_features: FEATURE_PROTO3_OPTIONAL })
}

} // verus!
