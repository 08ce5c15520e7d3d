//! The options of a compilation, and their textual form: a list of
//! `key=value` entries separated by commas.

use crate::text::{after_char, before_char, find_in, lemma_find_char, str_eq, trim, trim_bounds};
use vstd::prelude::*;
use vstd::string::*;

verus! {

/// The options of one compilation.
#[derive(Clone, Debug)]
pub struct Options {
    pub unary_rpc_promise: bool,
    pub grpc_server_package: String,
    pub grpc_web_package: String,
    pub runtime_package: String,
    pub base64_package: String,
    pub sendable_packege: String,
    pub namespaces: bool,
    pub import_suffix: String,
    pub with_namespace: bool,
    pub with_sendable: bool,
}

/// The model of [`Options`].
pub struct SpecOptions {
    pub unary_rpc_promise: bool,
    pub grpc_server_package: Seq<char>,
    pub grpc_web_package: Seq<char>,
    pub runtime_package: Seq<char>,
    pub base64_package: Seq<char>,
    pub sendable_packege: Seq<char>,
    pub namespaces: bool,
    pub import_suffix: Seq<char>,
    pub with_namespace: bool,
    pub with_sendable: bool,
}

impl View for Options {
    type V = SpecOptions;

    open spec fn view(&self) -> SpecOptions {
        SpecOptions {
            unary_rpc_promise: self.unary_rpc_promise,
            grpc_server_package: self.grpc_server_package@,
            grpc_web_package: self.grpc_web_package@,
            runtime_package: self.runtime_package@,
            base64_package: self.base64_package@,
            sendable_packege: self.sendable_packege@,
            namespaces: self.namespaces,
            import_suffix: self.import_suffix@,
            with_namespace: self.with_namespace,
            with_sendable: self.with_sendable,
        }
    }
}

/// The options that hold where the text names none.
pub open spec fn default_options() -> SpecOptions {
    SpecOptions {
        unary_rpc_promise: false,
        grpc_server_package: "@grpc/grpc-js"@,
        grpc_web_package: "grpc-web"@,
        runtime_package: "google-protobuf"@,
        base64_package: "js-base64"@,
        sendable_packege: "@kit.ArkTS"@,
        namespaces: false,
        import_suffix: ""@,
        with_namespace: true,
        with_sendable: false,
    }
}

/// The keys that must come with a value.
pub open spec fn needs_value(key: Seq<char>) -> bool {
    ||| key == "grpc_web_package"@
    ||| key == "grpc_server_package"@
    ||| key == "runtime_package"@
    ||| key == "base64_package"@
    ||| key == "unary_rpc_promise"@
    ||| key == "namespaces"@
    ||| key == "import_suffix"@
    ||| key == "with_namespace"@
    ||| key == "with_sendable"@
}

/// The options after one entry. A package or suffix key takes the value as
/// it stands; a flag is set exactly by the value `true`; `no_namespace`
/// clears `namespaces`; any other key changes nothing.
pub open spec fn apply_option(o: SpecOptions, key: Seq<char>, value: Seq<char>) -> SpecOptions {
    if key == "grpc_web_package"@ {
        SpecOptions { grpc_web_package: value, ..o }
    } else if key == "grpc_server_package"@ {
        SpecOptions { grpc_server_package: value, ..o }
    } else if key == "runtime_package"@ {
        SpecOptions { runtime_package: value, ..o }
    } else if key == "base64_package"@ {
        SpecOptions { base64_package: value, ..o }
    } else if key == "unary_rpc_promise"@ {
        SpecOptions { unary_rpc_promise: value == "true"@, ..o }
    } else if key == "no_namespace"@ {
        SpecOptions { namespaces: false, ..o }
    } else if key == "namespaces"@ {
        SpecOptions { namespaces: value == "true"@, ..o }
    } else if key == "import_suffix"@ {
        SpecOptions { import_suffix: value, ..o }
    } else if key == "with_namespace"@ {
        SpecOptions { with_namespace: value == "true"@, ..o }
    } else if key == "with_sendable"@ {
        SpecOptions { with_sendable: value == "true"@, ..o }
    } else {
        o
    }
}

/// The key of an entry: the trimmed entry up to its first `=`.
pub open spec fn entry_key(entry: Seq<char>) -> Seq<char> {
    before_char(trim(entry), '=')
}

/// The value of an entry: what stands between the first `=` of the trimmed
/// entry and the next one, if the entry holds a `=`.
pub open spec fn entry_value(entry: Seq<char>) -> Option<Seq<char>> {
    match after_char(trim(entry), '=') {
        Some(rest) => Some(before_char(rest, '=')),
        None => None,
    }
}

/// The options that the entries of `s` give, one after the other, starting
/// from `o`; `None` where a key that needs a value has none.
pub open spec fn parse_from(s: Seq<char>, o: SpecOptions) -> Option<SpecOptions>
    decreases s.len(),
{
    let entry = before_char(s, ',');
    let key = entry_key(entry);
    if needs_value(key) && entry_value(entry) is None {
        None
    } else {
        let value = match entry_value(entry) {
            Some(v) => v,
            None => Seq::empty(),
        };
        let next = apply_option(o, key, value);
        match after_char(s, ',') {
            Some(rest) => {
                proof {
                    lemma_find_char(s, ',');
                }
                parse_from(rest, next)
            },
            None => Some(next),
        }
    }
}

/// What the text of the options means: each entry applied in turn to the
/// default options.
pub open spec fn parse_options(raw: Seq<char>) -> Option<SpecOptions> {
    parse_from(raw, default_options())
}

impl Options {
    /// The default options.
    pub fn new() -> (r: Options)
        ensures
            r@ == default_options(),
    {
        Options {
            unary_rpc_promise: false,
            grpc_server_package: "@grpc/grpc-js".to_owned(),
            grpc_web_package: "grpc-web".to_owned(),
            runtime_package: "google-protobuf".to_owned(),
            base64_package: "js-base64".to_owned(),
            sendable_packege: "@kit.ArkTS".to_owned(),
            namespaces: false,
            import_suffix: "".to_owned(),
            with_namespace: true,
            with_sendable: false,
        }
    }

    /// Applies one entry, given by its key and value.
    fn set(&mut self, key: &str, value: &str)
        ensures
            final(self)@ == apply_option(old(self)@, key@, value@),
    {
        if str_eq(key, "grpc_web_package") {
            self.grpc_web_package = value.to_owned();
        } else if str_eq(key, "grpc_server_package") {
            self.grpc_server_package = value.to_owned();
        } else if str_eq(key, "runtime_package") {
            self.runtime_package = value.to_owned();
        } else if str_eq(key, "base64_package") {
            self.base64_package = value.to_owned();
        } else if str_eq(key, "unary_rpc_promise") {
            self.unary_rpc_promise = str_eq(value, "true");
        } else if str_eq(key, "no_namespace") {
            self.namespaces = false;
        } else if str_eq(key, "namespaces") {
            self.namespaces = str_eq(value, "true");
        } else if str_eq(key, "import_suffix") {
            self.import_suffix = value.to_owned();
        } else if str_eq(key, "with_namespace") {
            self.with_namespace = str_eq(value, "true");
        } else if str_eq(key, "with_sendable") {
            self.with_sendable = str_eq(value, "true");
        }
    }

    /// Whether the key must come with a value.
    fn key_needs_value(key: &str) -> (r: bool)
        ensures
            r == needs_value(key@),
    {
        str_eq(key, "grpc_web_package") || str_eq(key, "grpc_server_package") || str_eq(
            key,
            "runtime_package",
        ) || str_eq(key, "base64_package") || str_eq(key, "unary_rpc_promise") || str_eq(
            key,
            "namespaces",
        ) || str_eq(key, "import_suffix") || str_eq(key, "with_namespace") || str_eq(
            key,
            "with_sendable",
        )
    }

    /// Reads the options from their text. Entries are separated by commas
    /// and trimmed; an entry is a key, optionally followed by `=` and a
    /// value. Later entries override earlier ones and unknown keys are
    /// passed over. The result is `None` exactly where a key that needs a
    /// value stands without one.
    pub fn try_parse(raw: &str) -> (r: Option<Options>)
        ensures
            match r {
                Some(o) => parse_options(raw@) == Some(o@),
                None => parse_options(raw@) is None,
            },
    {
        let n = raw.unicode_len();
        let mut opt = Options::new();
        let mut pos: usize = 0;
        assert(raw@.skip(0) =~= raw@);
        loop
            invariant
                n == raw@.len(),
                pos <= n,
                parse_options(raw@) == parse_from(raw@.skip(pos as int), opt@),
            decreases n - pos,
        {
            let ghost s = raw@.skip(pos as int);
            let end = find_in(raw, pos, n, ',');
            assert(raw@.subrange(pos as int, end as int) =~= before_char(s, ','));
            let (a, b) = trim_bounds(raw, pos, end);
            let ghost entry = raw@.subrange(a as int, b as int);
            let eq = find_in(raw, a, b, '=');
            let key = raw.substring_char(a, eq);
            assert(key@ =~= before_char(entry, '='));
            let has_value = eq < b;
            let value = if has_value {
                let stop = find_in(raw, eq + 1, b, '=');
                assert(raw@.subrange(eq + 1, b as int) =~= entry.skip(eq - a + 1));
                assert(raw@.subrange(eq + 1, stop as int) =~= before_char(
                    entry.skip(eq - a + 1),
                    '=',
                ));
                raw.substring_char(eq + 1, stop)
            } else {
                ""
            };
            if Options::key_needs_value(key) && !has_value {
                return None;
            }
            opt.set(key, value);
            if end < n {
                assert(raw@.skip(end + 1) =~= s.skip(end - pos + 1));
                pos = end + 1;
            } else {
                return Some(opt);
            }
        }
    }

    /// Reads the options from their text, which must give every key that
    /// needs a value its value.
    pub fn parse(raw: &str) -> (r: Options)
        requires
            parse_options(raw@) is Some,
        ensures
            parse_options(raw@) == Some(r@),
    {
        match Options::try_parse(raw) {
            Some(o) => o,
            None => Options::new(),
        }
    }
}

} // verus!
