//! The pass over all schema files that finds the types they declare.
//!
//! A message `M` of a file with the package `p` is declared under the type
//! reference `.p.M`, and a type `N` nested in it under `.p.M.N`. The
//! generated type of a nested type is named after the types around it:
//! `M_N`.

use crate::context::{Descriptor, SpecDescriptorKind, SpecSymbol, Symbol, SymbolTable};
use crate::descriptor::{
    descriptors_view, enums_view, DescriptorProto, EnumDescriptorProto, SpecDescriptor,
    SpecEnum,
};
use crate::text::joined;
use vstd::prelude::*;
use vstd::string::*;

verus! {

/// One schema file.
#[derive(Debug, PartialEq, Eq)]
pub struct FileDescriptorProto {
    pub name: String,
    pub package: String,
    /// The dialect as the file names it: `proto2`, `proto3`, or nothing.
    pub syntax: String,
    pub message_type: Vec<DescriptorProto>,
    pub enum_type: Vec<EnumDescriptorProto>,
}

/// The model of a [`FileDescriptorProto`].
pub struct SpecFile {
    pub name: Seq<char>,
    pub package: Seq<char>,
    pub syntax: Seq<char>,
    pub message_type: Seq<SpecDescriptor>,
    pub enum_type: Seq<SpecEnum>,
}

impl View for FileDescriptorProto {
    type V = SpecFile;

    open spec fn view(&self) -> SpecFile {
        SpecFile {
            name: self.name@,
            package: self.package@,
            syntax: self.syntax@,
            message_type: descriptors_view(self.message_type@),
            enum_type: enums_view(self.enum_type@),
        }
    }
}

/// The models of a sequence of files, in order.
pub open spec fn files_view(fs: Seq<FileDescriptorProto>) -> Seq<SpecFile> {
    Seq::new(fs.len(), |i: int| fs[i]@)
}

/// The models of a sequence of symbols, in order.
pub open spec fn symbols_view(ss: Seq<Symbol>) -> Seq<SpecSymbol> {
    Seq::new(ss.len(), |i: int| ss[i]@)
}

/// The symbol of an enum declared in `file` inside the scope `prefix`.
pub open spec fn enum_symbol(
    file: Seq<char>,
    prefix: Seq<char>,
    ident_prefix: Seq<char>,
    e: SpecEnum,
) -> SpecSymbol {
    SpecSymbol {
        type_ref: prefix + "."@ + e.name,
        file: file,
        ident: ident_prefix + e.name,
        descriptor: SpecDescriptorKind::Enum(e),
    }
}

/// The symbols of the enums declared in one scope, in order.
pub open spec fn enum_symbols(
    file: Seq<char>,
    prefix: Seq<char>,
    ident_prefix: Seq<char>,
    es: Seq<SpecEnum>,
) -> Seq<SpecSymbol> {
    Seq::new(es.len(), |i: int| enum_symbol(file, prefix, ident_prefix, es[i]))
}

/// The symbols that a message declares: the message itself, then what its
/// nested messages declare, then its enums.
pub open spec fn message_symbols(
    file: Seq<char>,
    prefix: Seq<char>,
    ident_prefix: Seq<char>,
    d: SpecDescriptor,
) -> Seq<SpecSymbol>
    decreases d,
{
    let type_ref = prefix + "."@ + d.name;
    let ident = ident_prefix + d.name;
    seq![
        SpecSymbol {
            type_ref: type_ref,
            file: file,
            ident: ident,
            descriptor: SpecDescriptorKind::Message(d),
        },
    ] + messages_symbols(file, type_ref, ident + "_"@, d.nested_type) + enum_symbols(
        file,
        type_ref,
        ident + "_"@,
        d.enum_type,
    )
}

/// The symbols that the messages of one scope declare, in order.
pub open spec fn messages_symbols(
    file: Seq<char>,
    prefix: Seq<char>,
    ident_prefix: Seq<char>,
    ds: Seq<SpecDescriptor>,
) -> Seq<SpecSymbol>
    decreases ds,
{
    if ds.len() == 0 {
        Seq::empty()
    } else {
        messages_symbols(file, prefix, ident_prefix, ds.drop_last()) + message_symbols(
            file,
            prefix,
            ident_prefix,
            ds.last(),
        )
    }
}

/// The scope of the top-level types of a file: `.package`, or nothing
/// where the file has no package.
pub open spec fn file_scope(f: SpecFile) -> Seq<char> {
    if f.package.len() > 0 {
        "."@ + f.package
    } else {
        Seq::empty()
    }
}

/// The symbols that a file declares: those of its messages, then its
/// enums.
pub open spec fn file_symbols(f: SpecFile) -> Seq<SpecSymbol> {
    messages_symbols(f.name, file_scope(f), Seq::empty(), f.message_type) + enum_symbols(
        f.name,
        file_scope(f),
        Seq::empty(),
        f.enum_type,
    )
}

/// The symbols that files declare, file after file.
pub open spec fn all_symbols(fs: Seq<SpecFile>) -> Seq<SpecSymbol>
    decreases fs.len(),
{
    if fs.len() == 0 {
        Seq::empty()
    } else {
        all_symbols(fs.drop_last()) + file_symbols(fs.last())
    }
}

/// The table after symbols were entered in order: of two symbols under one
/// type reference the first stays.
pub open spec fn entered(table: Map<Seq<char>, SpecSymbol>, symbols: Seq<SpecSymbol>) -> Map<
    Seq<char>,
    SpecSymbol,
>
    decreases symbols.len(),
{
    if symbols.len() == 0 {
        table
    } else {
        let before = entered(table, symbols.drop_last());
        let s = symbols.last();
        if before.contains_key(s.type_ref) {
            before
        } else {
            before.insert(s.type_ref, s)
        }
    }
}

/// The declared types of a compilation over the given files.
pub open spec fn table_of(fs: Seq<SpecFile>) -> Map<Seq<char>, SpecSymbol> {
    entered(Map::empty(), all_symbols(fs))
}

/// Adds the symbols of the enums of one scope.
fn collect_enums<'a>(
    out: &mut Vec<Symbol<'a>>,
    file: &str,
    prefix: &str,
    ident_prefix: &str,
    enums: &'a Vec<EnumDescriptorProto>,
)
    ensures
        symbols_view(final(out)@) == symbols_view(old(out)@) + enum_symbols(
            file@,
            prefix@,
            ident_prefix@,
            enums_view(enums@),
        ),
{
    let ghost start = symbols_view(out@);
    let ghost es = enums_view(enums@);
    let mut i: usize = 0;
    while i < enums.len()
        invariant
            i <= enums@.len(),
            es == enums_view(enums@),
            symbols_view(out@) == start + enum_symbols(file@, prefix@, ident_prefix@, es).take(
                i as int,
            ),
        decreases enums@.len() - i,
    {
        let e = &enums[i];
        let scope = joined(prefix, ".");
        let symbol = Symbol {
            type_ref: joined(scope.as_str(), e.name.as_str()),
            file: file.to_owned(),
            ident: joined(ident_prefix, e.name.as_str()),
            descriptor: Descriptor::Enum(e),
        };
        let ghost before = out@;
        out.push(symbol);
        assert(symbols_view(out@) =~= symbols_view(before).push(symbol@));
        i += 1;
    }
}

/// Adds the symbols that a message declares.
fn collect_message<'a>(
    out: &mut Vec<Symbol<'a>>,
    file: &str,
    prefix: &str,
    ident_prefix: &str,
    d: &'a DescriptorProto,
)
    ensures
        symbols_view(final(out)@) == symbols_view(old(out)@) + message_symbols(
            file@,
            prefix@,
            ident_prefix@,
            d@,
        ),
    decreases d,
{
    let scope = joined(prefix, ".");
    let type_ref = joined(scope.as_str(), d.name.as_str());
    let ident = joined(ident_prefix, d.name.as_str());
    let inner = joined(ident.as_str(), "_");
    let symbol = Symbol {
        type_ref: type_ref.clone(),
        file: file.to_owned(),
        ident: ident,
        descriptor: Descriptor::Message(d),
    };
    out.push(symbol);
    collect_messages(out, file, type_ref.as_str(), inner.as_str(), &d.nested_type);
    collect_enums(out, file, type_ref.as_str(), inner.as_str(), &d.enum_type);
}

/// Adds the symbols that the messages of one scope declare.
fn collect_messages<'a>(
    out: &mut Vec<Symbol<'a>>,
    file: &str,
    prefix: &str,
    ident_prefix: &str,
    ds: &'a Vec<DescriptorProto>,
)
    ensures
        symbols_view(final(out)@) == symbols_view(old(out)@) + messages_symbols(
            file@,
            prefix@,
            ident_prefix@,
            descriptors_view(ds@),
        ),
    decreases ds,
{
    let ghost start = symbols_view(out@);
    let ghost all = descriptors_view(ds@);
    let mut i: usize = 0;
    while i < ds.len()
        invariant
            i <= ds@.len(),
            all == descriptors_view(ds@),
            symbols_view(out@) == start + messages_symbols(
                file@,
                prefix@,
                ident_prefix@,
                all.take(i as int),
            ),
        decreases ds@.len() - i,
    {
        collect_message(out, file, prefix, ident_prefix, &ds[i]);
        proof {
            assert(all.take(i + 1).drop_last() =~= all.take(i as int));
        }
        i += 1;
    }
    assert(all.take(i as int) =~= all);
}

impl FileDescriptorProto {
    /// The symbols that the file declares, in the order of their
    /// declaration.
    pub fn symbols<'a>(&'a self) -> (r: Vec<Symbol<'a>>)
        ensures
            symbols_view(r@) == file_symbols(self@),
    {
        let mut out: Vec<Symbol<'a>> = Vec::new();
        let scope = if self.package.as_str().unicode_len() > 0 {
            joined(".", self.package.as_str())
        } else {
            String::new()
        };
        collect_messages(&mut out, self.name.as_str(), scope.as_str(), "", &self.message_type);
        collect_enums(&mut out, self.name.as_str(), scope.as_str(), "", &self.enum_type);
        proof {
            reveal_strlit("");
            assert(""@ =~= Seq::<char>::empty());
        }
        out
    }
}

/// Finds the types that the files declare.
pub fn build_table<'a>(files: &'a Vec<FileDescriptorProto>) -> (r: SymbolTable<'a>)
    ensures
        r@ == table_of(files_view(files@)),
{
    let ghost fs = files_view(files@);
    let mut table = SymbolTable::new();
    let mut i: usize = 0;
    while i < files.len()
        invariant
            i <= files@.len(),
            fs == files_view(files@),
            table@ == entered(Map::empty(), all_symbols(fs.take(i as int))),
        decreases files@.len() - i,
    {
        let symbols = files[i].symbols();
        let ghost syms = symbols_view(symbols@);
        let ghost done = all_symbols(fs.take(i as int));
        proof {
            assert(fs.take(i + 1).drop_last() =~= fs.take(i as int));
        }
        let mut k: usize = 0;
        while k < symbols.len()
            invariant
                k <= symbols@.len(),
                syms == symbols_view(symbols@),
                table@ == entered(Map::empty(), done + syms.take(k as int)),
            decreases symbols@.len() - k,
        {
            let s = &symbols[k];
            let symbol = Symbol {
                type_ref: s.type_ref.clone(),
                file: s.file.clone(),
                ident: s.ident.clone(),
                descriptor: s.descriptor,
            };
            proof {
                assert((done + syms.take(k + 1)).drop_last() =~= done + syms.take(k as int));
            }
            let _ = table.register(symbol);
            k += 1;
        }
        assert(syms.take(k as int) =~= syms);
        i += 1;
    }
    assert(fs.take(i as int) =~= fs);
    table
}

} // verus!
