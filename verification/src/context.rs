//! The symbol context: which types the schema files declare, what a
//! generated file has to import, and the dialect and options in force.

use crate::descriptor::{
    DescriptorProto, EnumDescriptorProto, FieldDescriptorProto, SpecDescriptor, SpecEnum,
    SpecField,
};
use crate::options::{Options, SpecOptions};
use crate::text::{joined, replace, str_eq, str_replace};
use vstd::prelude::*;
use vstd::string::*;

verus! {

/// The dialect of a schema file.
#[derive(Clone, Copy, Debug, PartialEq, Eq, Structural)]
pub enum Syntax {
    Proto3,
    Proto2,
    Unspecified,
}

/// The dialect that a schema file's `syntax` statement names.
pub open spec fn syntax_of(s: Seq<char>) -> Option<Syntax> {
    if s == "proto3"@ {
        Some(Syntax::Proto3)
    } else if s == "proto2"@ {
        Some(Syntax::Proto2)
    } else if s == ""@ {
        Some(Syntax::Unspecified)
    } else {
        None
    }
}

impl Syntax {
    /// Reads a dialect from a schema file's `syntax` statement: `proto3`,
    /// `proto2`, or nothing at all.
    pub fn parse(s: &str) -> (r: Option<Syntax>)
        ensures
            r == syntax_of(s@),
    {
        if str_eq(s, "proto3") {
            Some(Syntax::Proto3)
        } else if str_eq(s, "proto2") {
            Some(Syntax::Proto2)
        } else if str_eq(s, "") {
            Some(Syntax::Unspecified)
        } else {
            None
        }
    }
}

/// Why generation failed.
#[derive(Clone, Copy, Debug, PartialEq, Eq, Structural)]
pub enum GenError {
    /// A field refers to a type that no schema file declares.
    UnresolvedSymbol,
    /// A map field's entry type is not a well-formed map entry.
    UnknownMapEntry,
    /// The type asked for as a map entry is none.
    NotAMapEntry,
    /// A declared default does not read as a value of the field's kind.
    MalformedDefault,
}

/// One imported name: `import { name } from "source"`.
#[derive(Debug, PartialEq, Eq)]
pub struct Import {
    pub name: String,
    pub source: String,
}

/// The model of an [`Import`].
pub struct SpecImport {
    pub name: Seq<char>,
    pub source: Seq<char>,
}

impl View for Import {
    type V = SpecImport;

    open spec fn view(&self) -> SpecImport {
        SpecImport { name: self.name@, source: self.source@ }
    }
}

/// The models of a sequence of imports, in order.
pub open spec fn imports_view(is: Seq<Import>) -> Seq<SpecImport> {
    Seq::new(is.len(), |i: int| is[i]@)
}

/// What a type reference resolves to.
#[derive(Clone, Copy, Debug, PartialEq, Eq)]
pub enum Descriptor<'a> {
    Message(&'a DescriptorProto),
    Enum(&'a EnumDescriptorProto),
}

/// The model of a [`Descriptor`].
pub enum SpecDescriptorKind {
    Message(SpecDescriptor),
    Enum(SpecEnum),
}

impl<'a> View for Descriptor<'a> {
    type V = SpecDescriptorKind;

    open spec fn view(&self) -> SpecDescriptorKind {
        match *self {
            Descriptor::Message(d) => SpecDescriptorKind::Message(d@),
            Descriptor::Enum(e) => SpecDescriptorKind::Enum(e@),
        }
    }
}

/// A declared type: the reference by which fields name it, the schema file
/// that declares it, the identifier of the generated type, and its
/// descriptor.
#[derive(Debug, PartialEq, Eq)]
pub struct Symbol<'a> {
    pub type_ref: String,
    pub file: String,
    pub ident: String,
    pub descriptor: Descriptor<'a>,
}

/// The model of a [`Symbol`].
pub struct SpecSymbol {
    pub type_ref: Seq<char>,
    pub file: Seq<char>,
    pub ident: Seq<char>,
    pub descriptor: SpecDescriptorKind,
}

impl<'a> View for Symbol<'a> {
    type V = SpecSymbol;

    open spec fn view(&self) -> SpecSymbol {
        SpecSymbol {
            type_ref: self.type_ref@,
            file: self.file@,
            ident: self.ident@,
            descriptor: self.descriptor@,
        }
    }
}

/// The declared types of a compilation, each under its type reference.
pub struct SymbolTable<'a> {
    symbols: Vec<Symbol<'a>>,
}

impl<'a> SymbolTable<'a> {
    #[verifier::type_invariant]
    spec fn inv(self) -> bool {
        forall|i: int, j: int|
            #![trigger self.symbols@[i], self.symbols@[j]]
            0 <= i < self.symbols@.len() && 0 <= j < self.symbols@.len()
                && self.symbols@[i].type_ref@ == self.symbols@[j].type_ref@ ==> i == j
    }

    spec fn index_of(self, type_ref: Seq<char>) -> int {
        choose|i: int| 0 <= i < self.symbols@.len() && self.symbols@[i].type_ref@ == type_ref
    }

    /// The table as a map from type references to symbols.
    pub closed spec fn view(&self) -> Map<Seq<char>, SpecSymbol> {
        Map::new(
            |k: Seq<char>|
                exists|i: int| 0 <= i < self.symbols@.len() && self.symbols@[i].type_ref@ == k,
            |k: Seq<char>| self.symbols@[self.index_of(k)]@,
        )
    }

    /// The table without a symbol.
    pub fn new() -> (r: SymbolTable<'a>)
        ensures
            r@ == Map::<Seq<char>, SpecSymbol>::empty(),
    {
        let r = SymbolTable { symbols: Vec::new() };
        r
    }

    /// The symbol under a type reference, if there is one.
    pub fn lookup(&self, type_ref: &str) -> (r: Option<&Symbol<'a>>)
        ensures
            match r {
                Some(s) => self@.contains_key(type_ref@) && self@[type_ref@] == s@,
                None => !self@.contains_key(type_ref@),
            },
    {
        proof {
            use_type_invariant(self);
        }
        let mut i: usize = 0;
        while i < self.symbols.len()
            invariant
                i <= self.symbols@.len(),
                forall|j: int| 0 <= j < i ==> self.symbols@[j].type_ref@ != type_ref@,
            decreases self.symbols@.len() - i,
        {
            if str_eq(self.symbols[i].type_ref.as_str(), type_ref) {
                proof {
                    use_type_invariant(self);
                }
                return Some(&self.symbols[i]);
            }
            i += 1;
        }
        None
    }

    /// Enters a symbol under its type reference, unless the reference is
    /// taken: a reference resolves to one symbol. Says whether it was
    /// entered.
    pub fn register(&mut self, symbol: Symbol<'a>) -> (r: bool)
        ensures
            r == !old(self)@.contains_key(symbol@.type_ref),
            r ==> final(self)@ == old(self)@.insert(symbol@.type_ref, symbol@),
            !r ==> final(self)@ == old(self)@,
    {
        proof {
            use_type_invariant(&*self);
        }
        if self.lookup(symbol.type_ref.as_str()).is_some() {
            return false;
        }
        let ghost before = *self;
        let ghost key = symbol@.type_ref;
        let mut taken = SymbolTable { symbols: Vec::new() };
        std::mem::swap(self, &mut taken);
        let mut symbols = taken.symbols;
        symbols.push(symbol);
        *self = SymbolTable { symbols };
        proof {
            let after = *self;
            let n = before.symbols@.len() as int;
            assert(after.symbols@[n] == symbol);
            assert forall|k: Seq<char>| #[trigger]
                after@.contains_key(k) == before@.insert(key, symbol@).contains_key(k) by {
                if before@.contains_key(k) {
                    let i = before.index_of(k);
                    assert(after.symbols@[i].type_ref@ == k);
                }
            }
            assert forall|k: Seq<char>| #[trigger] after@.contains_key(k) implies after@[k]
                == before@.insert(key, symbol@)[k] by {
            }
        }
        true
    }
}

/// What generation reads of a context and never changes: options, dialect,
/// the schema file that is being generated, and the declared types.
pub struct SpecEnv {
    pub options: SpecOptions,
    pub syntax: Syntax,
    pub name: Seq<char>,
    pub symbols: Map<Seq<char>, SpecSymbol>,
}

/// The model of a [`Context`]: what generation reads, and the imports
/// gathered so far.
pub struct SpecContext {
    pub env: SpecEnv,
    pub imports: Set<SpecImport>,
}

/// What a generating step yields: its result, and the imports that it adds
/// to the context whether it succeeds or not.
pub struct Gen<T> {
    pub value: Result<T, GenError>,
    pub imports: Set<SpecImport>,
}

impl<T> Gen<T> {
    /// A step that succeeds and imports nothing.
    pub open spec fn pure(value: T) -> Gen<T> {
        Gen { value: Ok(value), imports: Set::empty() }
    }

    /// A step that fails and imports nothing.
    pub open spec fn fail(e: GenError) -> Gen<T> {
        Gen { value: Err(e), imports: Set::empty() }
    }

    /// The step after the imports of earlier steps.
    pub open spec fn after(self, earlier: Set<SpecImport>) -> Gen<T> {
        Gen { value: self.value, imports: earlier.union(self.imports) }
    }

    /// This step and then, where it succeeds, the step that `next` makes
    /// of its result.
    pub open spec fn and_then<U>(self, next: spec_fn(T) -> Gen<U>) -> Gen<U> {
        match self.value {
            Ok(v) => next(v).after(self.imports),
            Err(e) => Gen { value: Err(e), imports: self.imports },
        }
    }

    /// This step with `f` applied to its result.
    pub open spec fn map<U>(self, f: spec_fn(T) -> U) -> Gen<U> {
        Gen {
            value: match self.value {
                Ok(v) => Ok(f(v)),
                Err(e) => Err(e),
            },
            imports: self.imports,
        }
    }
}

/// The results of `step` on the items, in order, up to the first item on
/// which it fails.
pub open spec fn each<A, T>(items: Seq<A>, step: spec_fn(A) -> Gen<T>) -> Gen<Seq<T>>
    decreases items.len(),
{
    if items.len() == 0 {
        Gen::pure(Seq::empty())
    } else {
        each(items.drop_last(), step).and_then(
            |done: Seq<T>| step(items.last()).map(|r: T| done.push(r)),
        )
    }
}

/// The results on the first `i + 1` items are those on the first `i` and
/// then the result on the item at `i`.
pub proof fn lemma_each_step<A, T>(items: Seq<A>, step: spec_fn(A) -> Gen<T>, i: int)
    requires
        0 <= i < items.len(),
    ensures
        each(items.take(i + 1), step) == each(items.take(i), step).and_then(
            |done: Seq<T>| step(items[i]).map(|r: T| done.push(r)),
        ),
{
    assert(items.take(i + 1).drop_last() =~= items.take(i));
}

/// Once an item has failed, more items change nothing.
pub proof fn lemma_each_failed<A, T>(items: Seq<A>, step: spec_fn(A) -> Gen<T>, i: int)
    requires
        0 <= i <= items.len(),
        each(items.take(i), step).value is Err,
    ensures
        each(items, step) == each(items.take(i), step),
    decreases items.len() - i,
{
    if i < items.len() {
        lemma_each_step(items, step, i);
        lemma_each_failed(items, step, i + 1);
    } else {
        assert(items.take(i) =~= items);
    }
}

/// Steps that agree on every item give the same results.
pub proof fn lemma_each_agrees<A, T>(
    items: Seq<A>,
    first: spec_fn(A) -> Gen<T>,
    second: spec_fn(A) -> Gen<T>,
)
    requires
        forall|i: int| 0 <= i < items.len() ==> first(#[trigger] items[i]) == second(items[i]),
    ensures
        each(items, first) == each(items, second),
    decreases items.len(),
{
    if items.len() > 0 {
        let shorter = items.drop_last();
        assert forall|i: int| 0 <= i < shorter.len() implies first(#[trigger] shorter[i])
            == second(shorter[i]) by {}
        lemma_each_agrees(shorter, first, second);
    }
}

/// The index of the first item on which `step` fails, where it fails on
/// one.
pub open spec fn failing_index<A, T>(items: Seq<A>, step: spec_fn(A) -> Gen<T>) -> int
    decreases items.len(),
{
    if items.len() == 0 {
        0
    } else if each(items.drop_last(), step).value is Err {
        failing_index(items.drop_last(), step)
    } else {
        items.len() - 1
    }
}

/// The item behind a prefix that succeeds, on which the step fails, is the
/// first on which it fails.
pub proof fn lemma_failing_index<A, T>(items: Seq<A>, step: spec_fn(A) -> Gen<T>, i: int)
    requires
        0 <= i < items.len(),
        each(items.take(i), step).value is Ok,
        each(items.take(i + 1), step).value is Err,
    ensures
        failing_index(items, step) == i,
    decreases items.len(),
{
    if items.len() == i + 1 {
    } else {
        let shorter = items.drop_last();
        assert(shorter.take(i) =~= items.take(i));
        assert(shorter.take(i + 1) =~= items.take(i + 1));
        lemma_failing_index(shorter, step, i);
    }
}

/// Where the step fails on the items, it fails on one of them.
pub proof fn lemma_failing_item<A, T>(items: Seq<A>, step: spec_fn(A) -> Gen<T>)
    requires
        each(items, step).value is Err,
    ensures
        exists|i: int| 0 <= i < items.len() && (#[trigger] step(items[i])).value is Err,
    decreases items.len(),
{
    if items.len() > 0 {
        if each(items.drop_last(), step).value is Err {
            lemma_failing_item(items.drop_last(), step);
        }
    }
}

impl SpecEnv {
    /// The message under a type reference, if the reference resolves to one.
    pub open spec fn message(self, type_ref: Seq<char>) -> Option<SpecDescriptor> {
        if self.symbols.contains_key(type_ref) {
            match self.symbols[type_ref].descriptor {
                SpecDescriptorKind::Message(d) => Some(d),
                SpecDescriptorKind::Enum(_) => None,
            }
        } else {
            None
        }
    }

    /// The well-formed map entry under a type reference, if there is one.
    pub open spec fn map_entry(self, type_ref: Seq<char>) -> Option<SpecDescriptor> {
        match self.message(type_ref) {
            Some(d) => if d.is_map_entry() {
                Some(d)
            } else {
                None
            },
            None => None,
        }
    }

    /// The number of the first member of the enum under a type reference, if
    /// the reference resolves to an enum that has a member.
    pub open spec fn leading_enum_member(self, type_ref: Seq<char>) -> Option<int> {
        if self.symbols.contains_key(type_ref) {
            match self.symbols[type_ref].descriptor {
                SpecDescriptorKind::Enum(e) => e.leading_member(),
                SpecDescriptorKind::Message(_) => None,
            }
        } else {
            None
        }
    }

    /// A map field: a repeated message field whose type is a synthetic map
    /// entry.
    pub open spec fn is_map(self, f: SpecField) -> bool {
        &&& f.is_repeated()
        &&& f.is_message()
        &&& self.message(f.type_ref) matches Some(d) && d.map_entry
    }

    /// A field whose values are written as one length-delimited block: a
    /// packable field for which the explicit option, or without one the
    /// dialect, says so.
    pub open spec fn is_packed(self, f: SpecField) -> bool {
        &&& f.is_packable()
        &&& match f.packed {
            Some(p) => p,
            None => self.syntax == Syntax::Proto3,
        }
    }

    /// The module from which a generated file imports what another schema
    /// file declares.
    pub open spec fn module_of(self, file: Seq<char>) -> Seq<char> {
        "./"@ + replace(file, ".proto"@, ""@) + self.options.import_suffix
    }

    /// What generated code has to import before it can name the type under
    /// a type reference: nothing for a type of the file that is being
    /// generated, else the type's identifier from its file's module.
    pub open spec fn imports_of(self, type_ref: Seq<char>) -> Set<SpecImport> {
        if self.symbols.contains_key(type_ref) && self.symbols[type_ref].file != self.name {
            set![
                SpecImport {
                    name: self.symbols[type_ref].ident,
                    source: self.module_of(self.symbols[type_ref].file),
                },
            ]
        } else {
            Set::empty()
        }
    }

    /// Naming the type under a type reference: its identifier, with the
    /// import that the name needs.
    pub open spec fn type_ident(self, type_ref: Seq<char>) -> Gen<Seq<char>> {
        if self.symbols.contains_key(type_ref) {
            Gen { value: Ok(self.symbols[type_ref].ident), imports: self.imports_of(type_ref) }
        } else {
            Gen::fail(GenError::UnresolvedSymbol)
        }
    }

    /// The import of the alternate containers.
    pub open spec fn sendable_imports(self) -> Set<SpecImport> {
        set![SpecImport { name: "collections"@, source: self.options.sendable_packege }]
    }

    /// The imports of the wire reader and writer.
    pub open spec fn protobuf_imports(self) -> Set<SpecImport> {
        set![
            SpecImport { name: "BinaryReader"@, source: self.options.runtime_package },
            SpecImport { name: "BinaryWriter"@, source: self.options.runtime_package },
        ]
    }
}

impl SpecContext {
    /// The context with more imports.
    pub open spec fn with_imports(self, more: Set<SpecImport>) -> SpecContext {
        SpecContext { env: self.env, imports: self.imports.union(more) }
    }
}

/// Adding no import leaves a context as it is.
pub proof fn lemma_with_no_imports(c: SpecContext)
    ensures
        c.with_imports(Set::empty()) == c,
{
    assert(c.imports.union(Set::empty()) =~= c.imports);
}

/// Adding imports in two steps adds their union.
pub proof fn lemma_with_imports_twice(c: SpecContext, a: Set<SpecImport>, b: Set<SpecImport>)
    ensures
        c.with_imports(a).with_imports(b) == c.with_imports(a.union(b)),
{
    assert(c.imports.union(a).union(b) =~= c.imports.union(a.union(b)));
}

/// The symbol context of one generated file: the options and declared types
/// of the compilation, which it shares, and the file's own dialect and
/// imports.
pub struct Context<'a> {
    options: &'a Options,
    table: &'a SymbolTable<'a>,
    syntax: Syntax,
    name: String,
    imports: Vec<Import>,
}

impl<'a> Context<'a> {
    #[verifier::type_invariant]
    spec fn inv(self) -> bool {
        forall|i: int, j: int|
            #![trigger self.imports@[i], self.imports@[j]]
            0 <= i < self.imports@.len() && 0 <= j < self.imports@.len() && self.imports@[i]@
                == self.imports@[j]@ ==> i == j
    }

    /// The context as generation sees it.
    pub closed spec fn view(&self) -> SpecContext {
        SpecContext {
            env: SpecEnv {
                options: self.options@,
                syntax: self.syntax,
                name: self.name@,
                symbols: self.table@,
            },
            imports: imports_view(self.imports@).to_set(),
        }
    }

    /// A context over the given options and declared types, with no file
    /// name and no import.
    pub fn new(options: &'a Options, table: &'a SymbolTable<'a>, syntax: Syntax) -> (r: Context<
        'a,
    >)
        ensures
            r@ == (SpecContext {
                env: SpecEnv {
                    options: options@,
                    syntax: syntax,
                    name: Seq::empty(),
                    symbols: table@,
                },
                imports: Set::empty(),
            }),
    {
        let r = Context { options, table, syntax, name: String::new(), imports: Vec::new() };
        assert(r@.imports =~= Set::empty());
        r
    }

    /// A context for one generated file. It shares the options and the
    /// declared types, and starts without imports; this context stays as
    /// it is.
    pub fn fork(&self, name: String, syntax: Syntax) -> (r: Context<'a>)
        ensures
            r@ == (SpecContext {
                env: SpecEnv { syntax: syntax, name: name@, ..self@.env },
                imports: Set::empty(),
            }),
    {
        let r = Context {
            options: self.options,
            table: self.table,
            syntax,
            name,
            imports: Vec::new(),
        };
        assert(r@.imports =~= Set::empty());
        r
    }

    /// The schema file that is being generated.
    pub fn name(&self) -> (r: &str)
        ensures
            r@ == self@.env.name,
    {
        self.name.as_str()
    }

    /// The options of the compilation.
    pub fn options(&self) -> (r: &'a Options)
        ensures
            r@ == self@.env.options,
    {
        self.options
    }

    /// The dialect of the file that is being generated.
    pub fn syntax(&self) -> (r: Syntax)
        ensures
            r == self@.env.syntax,
    {
        self.syntax
    }

    /// The symbol under a type reference.
    pub fn resolve(&self, type_ref: &str) -> (r: Result<&'a Symbol<'a>, GenError>)
        ensures
            match r {
                Ok(s) => self@.env.symbols.contains_key(type_ref@) && self@.env.symbols[type_ref@]
                    == s@,
                Err(e) => !self@.env.symbols.contains_key(type_ref@) && e
                    == GenError::UnresolvedSymbol,
            },
    {
        let table: &'a SymbolTable<'a> = self.table;
        match table.lookup(type_ref) {
            Some(s) => Ok(s),
            None => Err(GenError::UnresolvedSymbol),
        }
    }

    /// The map entry under a type reference: a synthetic message of exactly
    /// two fields, neither repeated.
    pub fn get_map_type(&self, type_ref: &str) -> (r: Result<&'a DescriptorProto, GenError>)
        ensures
            match r {
                Ok(d) => self@.env.map_entry(type_ref@) == Some(d@),
                Err(e) => self@.env.map_entry(type_ref@) is None && e == GenError::NotAMapEntry,
            },
    {
        match self.resolve(type_ref) {
            Ok(s) => match s.descriptor {
                Descriptor::Message(d) => if d.is_map_entry() {
                    Ok(d)
                } else {
                    Err(GenError::NotAMapEntry)
                },
                Descriptor::Enum(_) => Err(GenError::NotAMapEntry),
            },
            Err(_) => Err(GenError::NotAMapEntry),
        }
    }

    /// The number of the first declared member of the enum under a type
    /// reference.
    pub fn get_leading_enum_member(&self, type_ref: &str) -> (r: Result<i32, GenError>)
        ensures
            match r {
                Ok(n) => self@.env.leading_enum_member(type_ref@) == Some(n as int),
                Err(e) => self@.env.leading_enum_member(type_ref@) is None && e
                    == GenError::UnresolvedSymbol,
            },
    {
        match self.resolve(type_ref) {
            Ok(s) => match s.descriptor {
                Descriptor::Enum(e) => match e.leading_member() {
                    Some(n) => Ok(n),
                    None => Err(GenError::UnresolvedSymbol),
                },
                Descriptor::Message(_) => Err(GenError::UnresolvedSymbol),
            },
            Err(e) => Err(e),
        }
    }

    /// Adds an import, unless the context holds it already.
    pub fn register_import(&mut self, import: Import)
        ensures
            final(self)@ == old(self)@.with_imports(set![import@]),
    {
        proof {
            use_type_invariant(&*self);
        }
        let ghost before = *self;
        let mut i: usize = 0;
        while i < self.imports.len()
            invariant
                *self == before,
                i <= self.imports@.len(),
                forall|j: int| 0 <= j < i ==> self.imports@[j]@ != import@,
            decreases self.imports@.len() - i,
        {
            if str_eq(self.imports[i].name.as_str(), import.name.as_str()) && str_eq(
                self.imports[i].source.as_str(),
                import.source.as_str(),
            ) {
                proof {
                    assert(imports_view(self.imports@)[i as int] == import@);
                    assert(self@.imports =~= self@.imports.union(set![import@]));
                }
                return ;
            }
            i += 1;
        }
        let mut taken = self.fork(String::new(), self.syntax);
        std::mem::swap(self, &mut taken);
        let Context { options, table, syntax, name, mut imports } = taken;
        imports.push(import);
        *self = Context { options, table, syntax, name, imports };
        proof {
            let old_seq = imports_view(before.imports@);
            let new_seq = imports_view(self.imports@);
            assert(new_seq =~= old_seq.push(import@));
            assert forall|x: SpecImport| #[trigger]
                new_seq.to_set().contains(x) == old_seq.to_set().union(set![import@]).contains(
                    x,
                ) by {
                if old_seq.contains(x) {
                    let k = choose|k: int| 0 <= k < old_seq.len() && old_seq[k] == x;
                    assert(new_seq[k] == x);
                }
                if x == import@ {
                    assert(new_seq[old_seq.len() as int] == x);
                }
                if new_seq.contains(x) {
                }
            }
            assert(self@.imports =~= before@.imports.union(set![import@]));
        }
    }

    /// Imports the alternate containers from the package that the options
    /// name.
    pub fn get_sendable_import(&mut self)
        ensures
            final(self)@ == old(self)@.with_imports(old(self)@.env.sendable_imports()),
    {
        let options: &'a Options = self.options;
        self.register_import(
            Import { name: "collections".to_owned(), source: options.sendable_packege.clone() },
        );
    }

    /// Imports the wire reader and writer from the package that the
    /// options name.
    pub fn get_protobuf_import(&mut self)
        ensures
            final(self)@ == old(self)@.with_imports(old(self)@.env.protobuf_imports()),
    {
        let options: &'a Options = self.options;
        self.register_import(
            Import { name: "BinaryReader".to_owned(), source: options.runtime_package.clone() },
        );
        self.register_import(
            Import { name: "BinaryWriter".to_owned(), source: options.runtime_package.clone() },
        );
        assert(self@.imports =~= old(self)@.imports.union(old(self)@.env.protobuf_imports()));
    }

    /// The identifier under which generated code names the type under a
    /// type reference. A type that another schema file declares is
    /// imported from that file's module.
    pub fn lazy_type_ref(&mut self, type_ref: &str) -> (r: Result<String, GenError>)
        ensures
            final(self)@ == old(self)@.with_imports(old(self)@.env.type_ident(type_ref@).imports),
            match r {
                Ok(id) => old(self)@.env.type_ident(type_ref@).value == Ok::<Seq<char>, GenError>(
                    id@,
                ),
                Err(e) => old(self)@.env.type_ident(type_ref@).value == Err::<Seq<char>, GenError>(
                    e,
                ),
            },
    {
        match self.resolve(type_ref) {
            Ok(s) => {
                if !str_eq(s.file.as_str(), self.name.as_str()) {
                    let stem = str_replace(s.file.as_str(), ".proto", "");
                    let module = joined("./", stem.as_str());
                    let options: &'a Options = self.options;
                    let source = joined(module.as_str(), options.import_suffix.as_str());
                    self.register_import(Import { name: s.ident.clone(), source });
                } else {
                    assert(self@.imports =~= self@.imports.union(Set::empty()));
                }
                Ok(s.ident.clone())
            },
            Err(e) => {
                assert(self@.imports =~= self@.imports.union(Set::empty()));
                Err(e)
            },
        }
    }

    /// Hands over the imports that the context has gathered, each once,
    /// and leaves it without any.
    pub fn drain_imports(&mut self) -> (r: Vec<Import>)
        ensures
            final(self)@ == (SpecContext { env: old(self)@.env, imports: Set::empty() }),
            imports_view(r@).to_set() == old(self)@.imports,
            imports_view(r@).no_duplicates(),
    {
        proof {
            use_type_invariant(&*self);
        }
        let mut taken = self.fork(String::new(), self.syntax);
        std::mem::swap(self, &mut taken);
        let Context { options, table, syntax, name, imports } = taken;
        let out = imports;
        *self = Context { options, table, syntax, name, imports: Vec::new() };
        proof {
            assert(self@.imports =~= Set::empty());
        }
        out
    }
}

impl FieldDescriptorProto {
    /// Whether the field is a map field.
    pub fn is_map(&self, ctx: &Context) -> (r: bool)
        ensures
            r == ctx@.env.is_map(self@),
    {
        if self.is_repeated() && self.is_message() {
            match ctx.resolve(self.type_ref()) {
                Ok(s) => match s.descriptor {
                    Descriptor::Message(d) => d.map_entry,
                    Descriptor::Enum(_) => false,
                },
                Err(_) => false,
            }
        } else {
            false
        }
    }

    /// Whether the field's values are written as one length-delimited
    /// block.
    pub fn is_packed(&self, ctx: &Context) -> (r: bool)
        ensures
            r == ctx@.env.is_packed(self@),
    {
        if !self.is_packable() {
            return false;
        }
        match self.packed {
            Some(p) => p,
            None => ctx.syntax() == Syntax::Proto3,
        }
    }
}

} // verus!
