//! Symbols, direct calls and imports read from a parsed source file.
//!
//! The parser's tree is handed over flattened: the nodes in pre-order,
//! each with the index of its parent and the texts the rules read.

use vstd::prelude::*;
use crate::code_map::{
    Confidence, DirectCall, Evidence, Import, ImportView, Symbol, SymbolKind, copy_option, import_views,
};
use crate::imports::{
    before_first, before_first_of, go_import_target, go_target, java_import_target, java_target,
    python_import_target, python_target, relative_import_target, relative_target,
    rust_import_target, rust_module_target, rust_mod_target, rust_use_target,
};
use crate::inventory::Language;
use crate::text::{
    contains_seq, find_position, position_of, slice_chars, str_equals, strip_prefix,
    strip_prefix_str, strs, to_chars, trim, trim_chars, trim_end_char, trim_end_chars, words,
    words_of, views, from_chars,
};

verus! {

broadcast use vstd::string::group_string_axioms;

/// One node of a parsed file.
#[derive(Debug)]
pub struct SyntaxNode {
    /// The grammar's name for the node.
    pub kind: String,
    /// The index of the parent node, which comes earlier.
    pub parent: Option<usize>,
    /// The line the node starts on, counted from one.
    pub line: usize,
    /// The text of the node's `name` field.
    pub name: Option<String>,
    /// The text of the node's `function` field.
    pub function: Option<String>,
    /// The text of the node's `type` field.
    pub type_text: Option<String>,
    /// The node's own text.
    pub text: Option<String>,
}

// ----------------------------------------------------------------------------
// Node kinds per language
// ----------------------------------------------------------------------------

/// Whether the language family is JavaScript or TypeScript.
pub open spec fn ecmascript(language: Language) -> bool {
    language == Language::JavaScript || language == Language::TypeScript || language
        == Language::Jsx || language == Language::Tsx
}

/// The node kinds that declare a function in `language`.
pub open spec fn function_kind(language: Language, kind: Seq<char>) -> bool {
    match language {
        Language::Rust => kind == "function_item"@,
        Language::Python => kind == "function_definition"@,
        Language::Java => kind == "method_declaration"@,
        Language::Go => kind == "function_declaration"@ || kind == "method_declaration"@,
        _ => ecmascript(language) && (kind == "function_declaration"@ || kind
            == "method_definition"@),
    }
}

/// Whether `node` declares a named function.
pub open spec fn declares_function(language: Language, node: SyntaxNode) -> bool {
    function_kind(language, node.kind@) && node.name is Some
}

/// The function whose body holds node `i`: the nearest named function
/// declaration above it.
pub open spec fn current_function(language: Language, nodes: Seq<SyntaxNode>, i: int) -> Option<
    String,
>
    decreases i,
{
    if 0 <= i < nodes.len() {
        match nodes[i].parent {
            None => None,
            Some(p) => if p < i {
                if declares_function(language, nodes[p as int]) {
                    nodes[p as int].name
                } else {
                    current_function(language, nodes, p as int)
                }
            } else {
                None
            },
        }
    } else {
        None
    }
}

/// The node kinds that enclose the members of a type.
pub open spec fn type_container_kind(kind: Seq<char>) -> bool {
    kind == "class_declaration"@ || kind == "interface_declaration"@ || kind
        == "enum_declaration"@ || kind == "class_definition"@
}

/// The name of the nearest type declaration above node `i`.
pub open spec fn enclosing_type(nodes: Seq<SyntaxNode>, i: int) -> Option<String>
    decreases i,
{
    if 0 <= i < nodes.len() {
        match nodes[i].parent {
            None => None,
            Some(p) => if p < i {
                if type_container_kind(nodes[p as int].kind@) {
                    nodes[p as int].name
                } else {
                    enclosing_type(nodes, p as int)
                }
            } else {
                None
            },
        }
    } else {
        None
    }
}

/// The type of the nearest `impl` block above node `i`.
pub open spec fn impl_type(nodes: Seq<SyntaxNode>, i: int) -> Option<String>
    decreases i,
{
    if 0 <= i < nodes.len() {
        match nodes[i].parent {
            None => None,
            Some(p) => if p < i {
                if nodes[p as int].kind@ == "impl_item"@ {
                    nodes[p as int].type_text
                } else {
                    impl_type(nodes, p as int)
                }
            } else {
                None
            },
        }
    } else {
        None
    }
}

/// Whether node `i`'s grandparent is an `impl` block.
pub open spec fn in_impl(nodes: Seq<SyntaxNode>, i: int) -> bool {
    match nodes[i].parent {
        None => false,
        Some(p) => p < nodes.len() && match nodes[p as int].parent {
            None => false,
            Some(q) => q < nodes.len() && nodes[q as int].kind@ == "impl_item"@,
        },
    }
}

/// The kind of symbol a declaration node of `language` makes, if any.
pub open spec fn declared_kind(language: Language, nodes: Seq<SyntaxNode>, i: int) -> Option<
    SymbolKind,
> {
    let k = nodes[i].kind@;
    match language {
        Language::Rust => if k == "function_item"@ {
            Some(
                if in_impl(nodes, i) {
                    SymbolKind::Method
                } else {
                    SymbolKind::Function
                },
            )
        } else if k == "struct_item"@ {
            Some(SymbolKind::Struct)
        } else if k == "trait_item"@ {
            Some(SymbolKind::Trait)
        } else if k == "enum_item"@ {
            Some(SymbolKind::Enum)
        } else if k == "mod_item"@ {
            Some(SymbolKind::Module)
        } else {
            None
        },
        Language::Python => if k == "function_definition"@ {
            Some(
                if enclosing_type(nodes, i) is Some {
                    SymbolKind::Method
                } else {
                    SymbolKind::Function
                },
            )
        } else if k == "class_definition"@ {
            Some(SymbolKind::Class)
        } else {
            None
        },
        Language::Java => if k == "method_declaration"@ {
            Some(SymbolKind::Method)
        } else if k == "class_declaration"@ {
            Some(SymbolKind::Class)
        } else if k == "interface_declaration"@ {
            Some(SymbolKind::Interface)
        } else if k == "enum_declaration"@ {
            Some(SymbolKind::Enum)
        } else {
            None
        },
        Language::Go => if k == "function_declaration"@ {
            Some(SymbolKind::Function)
        } else if k == "method_declaration"@ {
            Some(SymbolKind::Method)
        } else {
            None
        },
        _ => if !ecmascript(language) {
            None
        } else if k == "function_declaration"@ {
            Some(SymbolKind::Function)
        } else if k == "method_definition"@ {
            Some(SymbolKind::Method)
        } else if k == "class_declaration"@ {
            Some(SymbolKind::Class)
        } else if k == "interface_declaration"@ {
            Some(SymbolKind::Interface)
        } else if k == "enum_declaration"@ {
            Some(SymbolKind::Enum)
        } else {
            None
        },
    }
}

/// The container recorded for a declaration node.
pub open spec fn declared_container(language: Language, nodes: Seq<SyntaxNode>, i: int) -> Option<
    String,
> {
    match language {
        Language::Rust => if nodes[i].kind@ == "function_item"@ {
            impl_type(nodes, i)
        } else {
            None
        },
        Language::Go => None,
        _ => if function_kind(language, nodes[i].kind@) {
            enclosing_type(nodes, i)
        } else {
            None
        },
    }
}

/// The symbol node `i` declares, if any: a declaration node with a name.
pub open spec fn symbol_at(language: Language, nodes: Seq<SyntaxNode>, path: String, i: int) -> Option<
    Symbol,
> {
    match (declared_kind(language, nodes, i), nodes[i].name) {
        (Some(kind), Some(name)) => Some(
            Symbol {
                path,
                name,
                kind,
                line: nodes[i].line,
                container: declared_container(language, nodes, i),
            },
        ),
        _ => None,
    }
}

/// Whether a callee is a plain identifier: ASCII letters, digits and `_`.
pub open spec fn identifier_like(s: Seq<char>) -> bool {
    forall|k: int|
        0 <= k < s.len() ==> #[trigger] s[k] == '_' || ('a' <= s[k] && s[k] <= 'z') || ('A'
            <= s[k] && s[k] <= 'Z') || ('0' <= s[k] && s[k] <= '9')
}

/// The node kind of a call in `language`, and the field naming its callee.
pub open spec fn call_callee(language: Language, node: SyntaxNode) -> Option<String> {
    match language {
        Language::Python => if node.kind@ == "call"@ {
            node.function
        } else {
            None
        },
        Language::Java => if node.kind@ == "method_invocation"@ {
            node.name
        } else {
            None
        },
        _ => if (language == Language::Rust || language == Language::Go || ecmascript(language))
            && node.kind@ == "call_expression"@ {
            node.function
        } else {
            None
        },
    }
}

/// The direct call node `i` makes, if any: a call inside a named function
/// whose callee is a plain identifier.
pub open spec fn call_at(language: Language, nodes: Seq<SyntaxNode>, path: String, i: int) -> Option<
    DirectCall,
> {
    match (current_function(language, nodes, i), call_callee(language, nodes[i])) {
        (Some(caller), Some(callee)) => if identifier_like(callee@) {
            Some(
                DirectCall {
                    caller,
                    callee,
                    evidence: Evidence { path, line: nodes[i].line },
                    confidence: Confidence::Exact,
                },
            )
        } else {
            None
        },
        _ => None,
    }
}

/// The symbols of the first `n` nodes, in order.
pub open spec fn symbols_upto(language: Language, nodes: Seq<SyntaxNode>, path: String, n: int) -> Seq<
    Symbol,
>
    decreases n,
{
    if n <= 0 {
        Seq::<Symbol>::empty()
    } else {
        let prev = symbols_upto(language, nodes, path, n - 1);
        match symbol_at(language, nodes, path, n - 1) {
            Some(s) => prev.push(s),
            None => prev,
        }
    }
}

/// The direct calls of the first `n` nodes, in order.
pub open spec fn calls_upto(language: Language, nodes: Seq<SyntaxNode>, path: String, n: int) -> Seq<
    DirectCall,
>
    decreases n,
{
    if n <= 0 {
        Seq::<DirectCall>::empty()
    } else {
        let prev = calls_upto(language, nodes, path, n - 1);
        match call_at(language, nodes, path, n - 1) {
            Some(c) => prev.push(c),
            None => prev,
        }
    }
}

// ----------------------------------------------------------------------------
// Executable extraction
// ----------------------------------------------------------------------------

fn kind_is(node: &SyntaxNode, kind: &str) -> (result: bool)
    ensures
        result == (node.kind@ == kind@),
{
    let k = to_chars(node.kind.as_str());
    str_equals(&k, kind)
}

fn is_ecmascript(language: Language) -> (result: bool)
    ensures
        result == ecmascript(language),
{
    match language {
        Language::JavaScript | Language::TypeScript | Language::Jsx | Language::Tsx => true,
        _ => false,
    }
}

fn is_function_kind(language: Language, node: &SyntaxNode) -> (result: bool)
    ensures
        result == function_kind(language, node.kind@),
{
    match language {
        Language::Rust => kind_is(node, "function_item"),
        Language::Python => kind_is(node, "function_definition"),
        Language::Java => kind_is(node, "method_declaration"),
        Language::Go => kind_is(node, "function_declaration") || kind_is(node, "method_declaration"),
        _ => is_ecmascript(language) && (kind_is(node, "function_declaration") || kind_is(
            node,
            "method_definition",
        )),
    }
}

fn is_type_container(node: &SyntaxNode) -> (result: bool)
    ensures
        result == type_container_kind(node.kind@),
{
    kind_is(node, "class_declaration") || kind_is(node, "interface_declaration") || kind_is(
        node,
        "enum_declaration",
    ) || kind_is(node, "class_definition")
}

/// The ancestor facts of every node: its current function, enclosing type
/// and `impl` type.
fn ancestry(language: Language, nodes: &Vec<SyntaxNode>) -> (result: (
    Vec<Option<String>>,
    Vec<Option<String>>,
    Vec<Option<String>>,
))
    ensures
        result.0.len() == nodes.len(),
        result.1.len() == nodes.len(),
        result.2.len() == nodes.len(),
        forall|j: int| 0 <= j < nodes.len() ==> #[trigger] result.0@[j] == current_function(language, nodes@, j),
        forall|j: int| 0 <= j < nodes.len() ==> #[trigger] result.1@[j] == enclosing_type(nodes@, j),
        forall|j: int| 0 <= j < nodes.len() ==> #[trigger] result.2@[j] == impl_type(nodes@, j),
{
    let mut functions: Vec<Option<String>> = Vec::new();
    let mut types: Vec<Option<String>> = Vec::new();
    let mut impls: Vec<Option<String>> = Vec::new();
    let mut i: usize = 0;
    while i < nodes.len()
        invariant
            i <= nodes.len(),
            functions.len() == i,
            types.len() == i,
            impls.len() == i,
            forall|j: int| 0 <= j < i ==> #[trigger] functions@[j] == current_function(language, nodes@, j),
            forall|j: int| 0 <= j < i ==> #[trigger] types@[j] == enclosing_type(nodes@, j),
            forall|j: int| 0 <= j < i ==> #[trigger] impls@[j] == impl_type(nodes@, j),
        decreases nodes.len() - i,
    {
        let node = &nodes[i];
        let (f, t, m) = match node.parent {
            Some(p) => {
                if p < i {
                    let parent = &nodes[p];
                    let f = if is_function_kind(language, parent) && parent.name.is_some() {
                        copy_option(&parent.name)
                    } else {
                        copy_option(&functions[p])
                    };
                    let t = if is_type_container(parent) {
                        copy_option(&parent.name)
                    } else {
                        copy_option(&types[p])
                    };
                    let m = if kind_is(parent, "impl_item") {
                        copy_option(&parent.type_text)
                    } else {
                        copy_option(&impls[p])
                    };
                    (f, t, m)
                } else {
                    (None, None, None)
                }
            },
            None => (None, None, None),
        };
        functions.push(f);
        types.push(t);
        impls.push(m);
        i = i + 1;
    }
    (functions, types, impls)
}

fn is_in_impl(nodes: &Vec<SyntaxNode>, i: usize) -> (result: bool)
    requires
        i < nodes.len(),
    ensures
        result == in_impl(nodes@, i as int),
{
    match nodes[i].parent {
        None => false,
        Some(p) => {
            if p >= nodes.len() {
                return false;
            }
            match nodes[p].parent {
                None => false,
                Some(q) => q < nodes.len() && kind_is(&nodes[q], "impl_item"),
            }
        },
    }
}

fn kind_of_declaration(language: Language, nodes: &Vec<SyntaxNode>, i: usize, enclosing: &Option<
    String,
>) -> (result: Option<SymbolKind>)
    requires
        i < nodes.len(),
        *enclosing == enclosing_type(nodes@, i as int),
    ensures
        result == declared_kind(language, nodes@, i as int),
{
    let node = &nodes[i];
    match language {
        Language::Rust => {
            if kind_is(node, "function_item") {
                Some(
                    if is_in_impl(nodes, i) {
                        SymbolKind::Method
                    } else {
                        SymbolKind::Function
                    },
                )
            } else if kind_is(node, "struct_item") {
                Some(SymbolKind::Struct)
            } else if kind_is(node, "trait_item") {
                Some(SymbolKind::Trait)
            } else if kind_is(node, "enum_item") {
                Some(SymbolKind::Enum)
            } else if kind_is(node, "mod_item") {
                Some(SymbolKind::Module)
            } else {
                None
            }
        },
        Language::Python => {
            if kind_is(node, "function_definition") {
                Some(
                    if enclosing.is_some() {
                        SymbolKind::Method
                    } else {
                        SymbolKind::Function
                    },
                )
            } else if kind_is(node, "class_definition") {
                Some(SymbolKind::Class)
            } else {
                None
            }
        },
        Language::Java => {
            if kind_is(node, "method_declaration") {
                Some(SymbolKind::Method)
            } else if kind_is(node, "class_declaration") {
                Some(SymbolKind::Class)
            } else if kind_is(node, "interface_declaration") {
                Some(SymbolKind::Interface)
            } else if kind_is(node, "enum_declaration") {
                Some(SymbolKind::Enum)
            } else {
                None
            }
        },
        Language::Go => {
            if kind_is(node, "function_declaration") {
                Some(SymbolKind::Function)
            } else if kind_is(node, "method_declaration") {
                Some(SymbolKind::Method)
            } else {
                None
            }
        },
        _ => {
            if !is_ecmascript(language) {
                None
            } else if kind_is(node, "function_declaration") {
                Some(SymbolKind::Function)
            } else if kind_is(node, "method_definition") {
                Some(SymbolKind::Method)
            } else if kind_is(node, "class_declaration") {
                Some(SymbolKind::Class)
            } else if kind_is(node, "interface_declaration") {
                Some(SymbolKind::Interface)
            } else if kind_is(node, "enum_declaration") {
                Some(SymbolKind::Enum)
            } else {
                None
            }
        },
    }
}

fn is_identifier_like(s: &String) -> (result: bool)
    ensures
        result == identifier_like(s@),
{
    let chars = to_chars(s.as_str());
    let mut k: usize = 0;
    while k < chars.len()
        invariant
            k <= chars.len(),
            chars@ == s@,
            forall|j: int|
                0 <= j < k ==> #[trigger] chars@[j] == '_' || ('a' <= chars@[j] && chars@[j] <= 'z')
                    || ('A' <= chars@[j] && chars@[j] <= 'Z') || ('0' <= chars@[j] && chars@[j]
                    <= '9'),
        decreases chars.len() - k,
    {
        let c = chars[k];
        if !(c == '_' || ('a' <= c && c <= 'z') || ('A' <= c && c <= 'Z') || ('0' <= c && c <= '9')) {
            return false;
        }
        k = k + 1;
    }
    true
}

fn callee_of(language: Language, node: &SyntaxNode) -> (result: Option<String>)
    ensures
        result == call_callee(language, *node),
{
    match language {
        Language::Python => {
            if kind_is(node, "call") {
                copy_option(&node.function)
            } else {
                None
            }
        },
        Language::Java => {
            if kind_is(node, "method_invocation") {
                copy_option(&node.name)
            } else {
                None
            }
        },
        _ => {
            let family = match language {
                Language::Rust | Language::Go => true,
                _ => is_ecmascript(language),
            };
            if family && kind_is(node, "call_expression") {
                copy_option(&node.function)
            } else {
                None
            }
        },
    }
}

/// The symbols and direct calls of one parsed file at `path`, in the order
/// of its nodes.
pub fn extract_symbols_and_calls(language: Language, nodes: &Vec<SyntaxNode>, path: &String) -> (result: (
    Vec<Symbol>,
    Vec<DirectCall>,
))
    ensures
        result.0@ == symbols_upto(language, nodes@, *path, nodes@.len() as int),
        result.1@ == calls_upto(language, nodes@, *path, nodes@.len() as int),
{
    let (functions, types, impls) = ancestry(language, nodes);
    let mut symbols: Vec<Symbol> = Vec::new();
    let mut calls: Vec<DirectCall> = Vec::new();
    let mut i: usize = 0;
    while i < nodes.len()
        invariant
            i <= nodes.len(),
            functions.len() == nodes.len(),
            types.len() == nodes.len(),
            impls.len() == nodes.len(),
            forall|j: int| 0 <= j < nodes.len() ==> #[trigger] functions@[j] == current_function(language, nodes@, j),
            forall|j: int| 0 <= j < nodes.len() ==> #[trigger] types@[j] == enclosing_type(nodes@, j),
            forall|j: int| 0 <= j < nodes.len() ==> #[trigger] impls@[j] == impl_type(nodes@, j),
            symbols@ == symbols_upto(language, nodes@, *path, i as int),
            calls@ == calls_upto(language, nodes@, *path, i as int),
        decreases nodes.len() - i,
    {
        let node = &nodes[i];
        assert(types@[i as int] == enclosing_type(nodes@, i as int));
        assert(impls@[i as int] == impl_type(nodes@, i as int));
        assert(functions@[i as int] == current_function(language, nodes@, i as int));
        let declared = kind_of_declaration(language, nodes, i, &types[i]);
        match (declared, &node.name) {
            (Some(kind), Some(name)) => {
                let container = match language {
                    Language::Rust => {
                        if kind_is(node, "function_item") {
                            copy_option(&impls[i])
                        } else {
                            None
                        }
                    },
                    Language::Go => None,
                    _ => {
                        if is_function_kind(language, node) {
                            copy_option(&types[i])
                        } else {
                            None
                        }
                    },
                };
                symbols.push(
                    Symbol {
                        path: path.clone(),
                        name: name.clone(),
                        kind,
                        line: node.line,
                        container,
                    },
                );
            },
            _ => {},
        }
        match (&functions[i], callee_of(language, node)) {
            (Some(caller), Some(callee)) => {
                if is_identifier_like(&callee) {
                    calls.push(
                        DirectCall {
                            caller: caller.clone(),
                            callee,
                            evidence: Evidence { path: path.clone(), line: node.line },
                            confidence: Confidence::Exact,
                        },
                    );
                }
            },
            _ => {},
        }
        i = i + 1;
    }
    (symbols, calls)
}

// ----------------------------------------------------------------------------
// Imports
// ----------------------------------------------------------------------------

/// `s` without one leading `open` and one trailing `close` character, when
/// it has both.
pub open spec fn unwrap_quotes(s: Seq<char>, quote: char) -> Option<Seq<char>> {
    if s.len() >= 2 && s[0] == quote && s.last() == quote {
        Some(s.subrange(1, s.len() - 1))
    } else {
        None
    }
}

/// The module an ECMAScript `import` statement names: the text after the
/// first `from` (up to any next `from`), else after a leading `import`;
/// without trailing `;` and quoted in `"` or `'`.
pub open spec fn ecmascript_module(text: Seq<char>) -> Option<Seq<char>> {
    let spec_text = if contains_seq(text, "from"@) {
        Some(trim(before_first(text.skip(find_position(text, "from"@) + 4), "from"@)))
    } else {
        match strip_prefix(trim(text), "import"@) {
            Some(r) => Some(trim(r)),
            None => None,
        }
    };
    match spec_text {
        None => None,
        Some(m) => {
            let c = trim(trim_end_char(m, ';'));
            match unwrap_quotes(c, '"') {
                Some(inner) => Some(inner),
                None => unwrap_quotes(c, '\''),
            }
        },
    }
}

/// The module a Python `from ... import` statement names.
pub open spec fn python_module(text: Seq<char>) -> Option<Seq<char>> {
    match strip_prefix(trim(text), "from "@) {
        Some(rest) => Some(before_first(rest, " import "@)),
        None => None,
    }
}

/// The class a Java `import` declaration names; static and wildcard
/// imports name none.
pub open spec fn java_module(text: Seq<char>) -> Option<Seq<char>> {
    match strip_prefix(trim(text), "import "@) {
        None => None,
        Some(rest) => {
            let r = trim(rest);
            if r.len() > 0 && r.last() == ';' {
                let m = r.drop_last();
                if "static "@.is_prefix_of(m) || ".*"@.is_suffix_of(m) {
                    None
                } else {
                    Some(m)
                }
            } else {
                None
            }
        },
    }
}

/// The package a Go import spec names: its last word, quoted in `"`.
pub open spec fn go_module_text(text: Seq<char>) -> Option<Seq<char>> {
    let w = words(text);
    if w.len() == 0 {
        None
    } else {
        unwrap_quotes(w.last(), '"')
    }
}

/// The import node `i` makes, if any, with the file it names.
pub open spec fn import_at(
    language: Language,
    nodes: Seq<SyntaxNode>,
    path: Seq<char>,
    known: Seq<Seq<char>>,
    module_name: Option<Seq<char>>,
    i: int,
) -> Option<ImportView> {
    let node = nodes[i];
    let target = if language == Language::Rust {
        if node.kind@ == "use_declaration"@ {
            match node.text {
                Some(t) => rust_use_target(t@, known),
                None => None,
            }
        } else if node.kind@ == "mod_item"@ {
            match node.name {
                Some(m) => rust_mod_target(path, m@, known),
                None => None,
            }
        } else {
            None
        }
    } else if ecmascript(language) {
        if node.kind@ == "import_statement"@ {
            match node.text {
                Some(t) => match ecmascript_module(t@) {
                    Some(m) => relative_target(path, m, known),
                    None => None,
                },
                None => None,
            }
        } else {
            None
        }
    } else if language == Language::Python {
        if node.kind@ == "import_from_statement"@ {
            match node.text {
                Some(t) => match python_module(t@) {
                    Some(m) => python_target(path, m, known),
                    None => None,
                },
                None => None,
            }
        } else {
            None
        }
    } else if language == Language::Java {
        if node.kind@ == "import_declaration"@ {
            match node.text {
                Some(t) => match java_module(t@) {
                    Some(m) => java_target(m, known),
                    None => None,
                },
                None => None,
            }
        } else {
            None
        }
    } else if language == Language::Go {
        if node.kind@ == "import_spec"@ {
            match node.text {
                Some(t) => match go_module_text(t@) {
                    Some(m) => go_target(m, module_name, known),
                    None => None,
                },
                None => None,
            }
        } else {
            None
        }
    } else {
        None
    };
    match target {
        Some(target_path) => Some(
            ImportView {
                source_path: path,
                target_path,
                evidence_path: path,
                evidence_line: node.line as nat,
                confidence: Confidence::Exact,
            },
        ),
        None => None,
    }
}

/// The imports of the first `n` nodes, in order.
pub open spec fn imports_upto(
    language: Language,
    nodes: Seq<SyntaxNode>,
    path: Seq<char>,
    known: Seq<Seq<char>>,
    module_name: Option<Seq<char>>,
    n: int,
) -> Seq<ImportView>
    decreases n,
{
    if n <= 0 {
        Seq::<ImportView>::empty()
    } else {
        let prev = imports_upto(language, nodes, path, known, module_name, n - 1);
        match import_at(language, nodes, path, known, module_name, n - 1) {
            Some(v) => prev.push(v),
            None => prev,
        }
    }
}

fn unwrap_quotes_of(s: &Vec<char>, quote: char) -> (result: Option<Vec<char>>)
    ensures
        match result {
            Some(r) => unwrap_quotes(s@, quote) == Some(r@),
            None => unwrap_quotes(s@, quote) is None,
        },
{
    if s.len() >= 2 && s[0] == quote && s[s.len() - 1] == quote {
        Some(slice_chars(s, 1, s.len() - 1))
    } else {
        None
    }
}

fn ecmascript_module_of(text: &String) -> (result: Option<Vec<char>>)
    ensures
        match result {
            Some(r) => ecmascript_module(text@) == Some(r@),
            None => ecmascript_module(text@) is None,
        },
{
    let t = to_chars(text.as_str());
    let from = to_chars("from");
    proof {
        reveal_strlit("from");
    }
    let m = match position_of(&t, &from) {
        Some(at) => {
            let tl = t.len();
            assert(at + 4 <= tl);
            let after = slice_chars(&t, at + 4, tl);
            assert(after@ =~= t@.skip(at + 4));
            let piece = before_first_of(&after, &from);
            trim_chars(&piece)
        },
        None => {
            let tt = trim_chars(&t);
            match strip_prefix_str(&tt, "import") {
                Some(r) => trim_chars(&r),
                None => {
                    return None;
                },
            }
        },
    };
    let cut = trim_end_chars(&m, ';');
    let c = trim_chars(&cut);
    match unwrap_quotes_of(&c, '"') {
        Some(inner) => Some(inner),
        None => unwrap_quotes_of(&c, '\''),
    }
}

fn python_module_of(text: &String) -> (result: Option<Vec<char>>)
    ensures
        match result {
            Some(r) => python_module(text@) == Some(r@),
            None => python_module(text@) is None,
        },
{
    let t = to_chars(text.as_str());
    let tt = trim_chars(&t);
    match strip_prefix_str(&tt, "from ") {
        Some(rest) => {
            let sep = to_chars(" import ");
            Some(before_first_of(&rest, &sep))
        },
        None => None,
    }
}

fn java_module_of(text: &String) -> (result: Option<Vec<char>>)
    ensures
        match result {
            Some(r) => java_module(text@) == Some(r@),
            None => java_module(text@) is None,
        },
{
    let t = to_chars(text.as_str());
    let tt = trim_chars(&t);
    match strip_prefix_str(&tt, "import ") {
        None => None,
        Some(rest) => {
            let r = trim_chars(&rest);
            if r.len() > 0 && r[r.len() - 1] == ';' {
                let m = slice_chars(&r, 0, r.len() - 1);
                assert(m@ =~= r@.drop_last());
                let st = to_chars("static ");
                let wild = to_chars(".*");
                if crate::text::starts_with(&m, &st) || crate::text::ends_with(&m, &wild) {
                    None
                } else {
                    Some(m)
                }
            } else {
                None
            }
        },
    }
}

fn go_module_of(text: &String) -> (result: Option<Vec<char>>)
    ensures
        match result {
            Some(r) => go_module_text(text@) == Some(r@),
            None => go_module_text(text@) is None,
        },
{
    let t = to_chars(text.as_str());
    let w = words_of(&t);
    if w.len() == 0 {
        return None;
    }
    assert(views(w@).last() == w@[w.len() - 1]@);
    unwrap_quotes_of(&w[w.len() - 1], '"')
}

fn target_of(
    language: Language,
    node: &SyntaxNode,
    path: &String,
    known: &Vec<String>,
    module_name: Option<&str>,
) -> (result: Option<String>)
    ensures
        match result {
            Some(t) => import_at(
                language,
                seq![*node],
                path@,
                strs(known@),
                crate::auth::opt_str(module_name),
                0,
            ) is Some && import_at(
                language,
                seq![*node],
                path@,
                strs(known@),
                crate::auth::opt_str(module_name),
                0,
            )->0.target_path == t@,
            None => import_at(
                language,
                seq![*node],
                path@,
                strs(known@),
                crate::auth::opt_str(module_name),
                0,
            ) is None,
        },
{
    assert(seq![*node][0] == *node);
    match language {
        Language::Rust => {
            if kind_is(node, "use_declaration") {
                match &node.text {
                    Some(t) => rust_import_target(t.as_str(), known),
                    None => None,
                }
            } else if kind_is(node, "mod_item") {
                match &node.name {
                    Some(m) => rust_module_target(path.as_str(), m.as_str(), known),
                    None => None,
                }
            } else {
                None
            }
        },
        Language::Python => {
            if kind_is(node, "import_from_statement") {
                match &node.text {
                    Some(t) => match python_module_of(t) {
                        Some(m) => {
                            let ms = from_chars(m.as_slice());
                            python_import_target(path.as_str(), ms.as_str(), known)
                        },
                        None => None,
                    },
                    None => None,
                }
            } else {
                None
            }
        },
        Language::Java => {
            if kind_is(node, "import_declaration") {
                match &node.text {
                    Some(t) => match java_module_of(t) {
                        Some(m) => {
                            let ms = from_chars(m.as_slice());
                            java_import_target(ms.as_str(), known)
                        },
                        None => None,
                    },
                    None => None,
                }
            } else {
                None
            }
        },
        Language::Go => {
            if kind_is(node, "import_spec") {
                match &node.text {
                    Some(t) => match go_module_of(t) {
                        Some(m) => {
                            let ms = from_chars(m.as_slice());
                            go_import_target(ms.as_str(), module_name, known)
                        },
                        None => None,
                    },
                    None => None,
                }
            } else {
                None
            }
        },
        _ => {
            if is_ecmascript(language) && kind_is(node, "import_statement") {
                match &node.text {
                    Some(t) => match ecmascript_module_of(t) {
                        Some(m) => {
                            let ms = from_chars(m.as_slice());
                            relative_import_target(path.as_str(), ms.as_str(), known)
                        },
                        None => None,
                    },
                    None => None,
                }
            } else {
                None
            }
        },
    }
}

proof fn lemma_import_at_single(
    language: Language,
    nodes: Seq<SyntaxNode>,
    path: Seq<char>,
    known: Seq<Seq<char>>,
    module_name: Option<Seq<char>>,
    i: int,
)
    requires
        0 <= i < nodes.len(),
    ensures
        import_at(language, nodes, path, known, module_name, i) == import_at(
            language,
            seq![nodes[i]],
            path,
            known,
            module_name,
            0,
        ),
{
    assert(seq![nodes[i]][0] == nodes[i]);
}

/// The imports of one parsed file at `path`, in the order of its nodes;
/// `known` holds the repository's paths and `module_name` the Go module.
pub fn extract_imports(
    language: Language,
    nodes: &Vec<SyntaxNode>,
    path: &String,
    known: &Vec<String>,
    module_name: Option<&str>,
) -> (result: Vec<Import>)
    ensures
        import_views(result@) == imports_upto(
            language,
            nodes@,
            path@,
            strs(known@),
            crate::auth::opt_str(module_name),
            nodes@.len() as int,
        ),
{
    let mut imports: Vec<Import> = Vec::new();
    let mut i: usize = 0;
    while i < nodes.len()
        invariant
            i <= nodes.len(),
            import_views(imports@) == imports_upto(
                language,
                nodes@,
                path@,
                strs(known@),
                crate::auth::opt_str(module_name),
                i as int,
            ),
        decreases nodes.len() - i,
    {
        proof {
            lemma_import_at_single(
                language,
                nodes@,
                path@,
                strs(known@),
                crate::auth::opt_str(module_name),
                i as int,
            );
        }
        match target_of(language, &nodes[i], path, known, module_name) {
            Some(target_path) => {
                let ghost before = imports@;
                imports.push(
                    Import {
                        source_path: path.clone(),
                        target_path,
                        evidence: Evidence { path: path.clone(), line: nodes[i].line },
                        confidence: Confidence::Exact,
                    },
                );
                assert(import_views(imports@) =~= import_views(before).push(imports@.last()@));
            },
            None => {},
        }
        i = i + 1;
    }
    imports
}

/// Whether `symbols` lists a symbol at `path` named `name`, of kind `kind`,
/// starting on `line`.
pub open spec fn lists_symbol(symbols: Seq<Symbol>, path: String, name: String, kind: SymbolKind, line: usize) -> bool {
    exists|k: int|
        0 <= k < symbols.len() && #[trigger] symbols[k].path == path && symbols[k].name == name
            && symbols[k].kind == kind && symbols[k].line == line
}

proof fn lemma_symbol_listed(language: Language, nodes: Seq<SyntaxNode>, path: String, i: int, n: int)
    requires
        0 <= i < n,
        symbol_at(language, nodes, path, i) is Some,
    ensures
        symbols_upto(language, nodes, path, n).contains(symbol_at(language, nodes, path, i)->0),
    decreases n,
{
    let prev = symbols_upto(language, nodes, path, n - 1);
    if i == n - 1 {
        assert(symbols_upto(language, nodes, path, n)[prev.len() as int] == symbol_at(language, nodes, path, i)->0);
    } else {
        lemma_symbol_listed(language, nodes, path, i, n - 1);
        let k = choose|k: int| 0 <= k < prev.len() && prev[k] == symbol_at(language, nodes, path, i)->0;
        assert(symbols_upto(language, nodes, path, n)[k] == prev[k]);
    }
}

/// Every named declaration node of a parsed file yields a symbol with its
/// name and line, of the kind its node declares: in Go a
/// `function_declaration` is a function and a `method_declaration` a
/// method; in Java a `method_declaration` is a method and class, interface
/// and enum declarations are classes, interfaces and enums; in JavaScript
/// and TypeScript a `function_declaration` is a function, a
/// `method_definition` a method, and class, interface and enum
/// declarations likewise; in Rust structs, traits, enums and modules are
/// listed as such and a `function_item` as a function or a method; in
/// Python a `class_definition` is a class and a `function_definition` a
/// function or a method.
pub proof fn law_declarations_yield_symbols(language: Language, nodes: Seq<SyntaxNode>, path: String, i: int)
    requires
        0 <= i < nodes.len(),
        nodes[i].name is Some,
    ensures
        ({
            let symbols = symbols_upto(language, nodes, path, nodes.len() as int);
            let name = nodes[i].name->0;
            let line = nodes[i].line;
            let k = nodes[i].kind@;
            &&& language == Language::Go && k == "function_declaration"@ ==> lists_symbol(symbols, path, name, SymbolKind::Function, line)
            &&& language == Language::Go && k == "method_declaration"@ ==> lists_symbol(symbols, path, name, SymbolKind::Method, line)
            &&& language == Language::Java && k == "method_declaration"@ ==> lists_symbol(symbols, path, name, SymbolKind::Method, line)
            &&& language == Language::Java && k == "class_declaration"@ ==> lists_symbol(symbols, path, name, SymbolKind::Class, line)
            &&& language == Language::Java && k == "interface_declaration"@ ==> lists_symbol(symbols, path, name, SymbolKind::Interface, line)
            &&& language == Language::Java && k == "enum_declaration"@ ==> lists_symbol(symbols, path, name, SymbolKind::Enum, line)
            &&& ecmascript(language) && k == "function_declaration"@ ==> lists_symbol(symbols, path, name, SymbolKind::Function, line)
            &&& ecmascript(language) && k == "method_definition"@ ==> lists_symbol(symbols, path, name, SymbolKind::Method, line)
            &&& ecmascript(language) && k == "class_declaration"@ ==> lists_symbol(symbols, path, name, SymbolKind::Class, line)
            &&& ecmascript(language) && k == "interface_declaration"@ ==> lists_symbol(symbols, path, name, SymbolKind::Interface, line)
            &&& ecmascript(language) && k == "enum_declaration"@ ==> lists_symbol(symbols, path, name, SymbolKind::Enum, line)
            &&& language == Language::Rust && k == "struct_item"@ ==> lists_symbol(symbols, path, name, SymbolKind::Struct, line)
            &&& language == Language::Rust && k == "trait_item"@ ==> lists_symbol(symbols, path, name, SymbolKind::Trait, line)
            &&& language == Language::Rust && k == "enum_item"@ ==> lists_symbol(symbols, path, name, SymbolKind::Enum, line)
            &&& language == Language::Rust && k == "mod_item"@ ==> lists_symbol(symbols, path, name, SymbolKind::Module, line)
            &&& language == Language::Rust && k == "function_item"@ ==> lists_symbol(symbols, path, name, SymbolKind::Function, line)
                || lists_symbol(symbols, path, name, SymbolKind::Method, line)
            &&& language == Language::Python && k == "class_definition"@ ==> lists_symbol(symbols, path, name, SymbolKind::Class, line)
            &&& language == Language::Python && k == "function_definition"@ ==> lists_symbol(symbols, path, name, SymbolKind::Function, line)
                || lists_symbol(symbols, path, name, SymbolKind::Method, line)
        }),
{
    reveal_strlit("class_declaration");
    reveal_strlit("class_definition");
    reveal_strlit("enum_declaration");
    reveal_strlit("enum_item");
    reveal_strlit("function_declaration");
    reveal_strlit("function_definition");
    reveal_strlit("function_item");
    reveal_strlit("interface_declaration");
    reveal_strlit("method_declaration");
    reveal_strlit("method_definition");
    reveal_strlit("mod_item");
    reveal_strlit("struct_item");
    reveal_strlit("trait_item");
    assert("class_declaration"@[0] != "method_definition"@[0]);
    assert("struct_item"@.len() != "function_item"@.len());
    assert("struct_item"@ != "function_item"@);
    assert("trait_item"@.len() != "function_item"@.len());
    assert("trait_item"@ != "function_item"@);
    assert("trait_item"@.len() != "struct_item"@.len());
    assert("trait_item"@ != "struct_item"@);
    assert("enum_item"@.len() != "function_item"@.len());
    assert("enum_item"@ != "function_item"@);
    assert("enum_item"@.len() != "struct_item"@.len());
    assert("enum_item"@ != "struct_item"@);
    assert("enum_item"@.len() != "trait_item"@.len());
    assert("enum_item"@ != "trait_item"@);
    assert("mod_item"@.len() != "function_item"@.len());
    assert("mod_item"@ != "function_item"@);
    assert("mod_item"@.len() != "struct_item"@.len());
    assert("mod_item"@ != "struct_item"@);
    assert("mod_item"@.len() != "trait_item"@.len());
    assert("mod_item"@ != "trait_item"@);
    assert("mod_item"@.len() != "enum_item"@.len());
    assert("mod_item"@ != "enum_item"@);
    assert("class_definition"@.len() != "function_definition"@.len());
    assert("class_definition"@ != "function_definition"@);
    assert("class_declaration"@.len() != "method_declaration"@.len());
    assert("class_declaration"@ != "method_declaration"@);
    assert("interface_declaration"@.len() != "method_declaration"@.len());
    assert("interface_declaration"@ != "method_declaration"@);
    assert("interface_declaration"@.len() != "class_declaration"@.len());
    assert("interface_declaration"@ != "class_declaration"@);
    assert("enum_declaration"@.len() != "method_declaration"@.len());
    assert("enum_declaration"@ != "method_declaration"@);
    assert("enum_declaration"@.len() != "class_declaration"@.len());
    assert("enum_declaration"@ != "class_declaration"@);
    assert("enum_declaration"@.len() != "interface_declaration"@.len());
    assert("enum_declaration"@ != "interface_declaration"@);
    assert("method_declaration"@.len() != "function_declaration"@.len());
    assert("method_declaration"@ != "function_declaration"@);
    assert("method_definition"@.len() != "function_declaration"@.len());
    assert("method_definition"@ != "function_declaration"@);
    assert("class_declaration"@.len() != "function_declaration"@.len());
    assert("class_declaration"@ != "function_declaration"@);
    assert("class_declaration"@ != "method_definition"@);
    assert("interface_declaration"@.len() != "function_declaration"@.len());
    assert("interface_declaration"@ != "function_declaration"@);
    assert("interface_declaration"@.len() != "method_definition"@.len());
    assert("interface_declaration"@ != "method_definition"@);
    assert("interface_declaration"@.len() != "class_declaration"@.len());
    assert("interface_declaration"@ != "class_declaration"@);
    assert("enum_declaration"@.len() != "function_declaration"@.len());
    assert("enum_declaration"@ != "function_declaration"@);
    assert("enum_declaration"@.len() != "method_definition"@.len());
    assert("enum_declaration"@ != "method_definition"@);
    assert("enum_declaration"@.len() != "class_declaration"@.len());
    assert("enum_declaration"@ != "class_declaration"@);
    assert("enum_declaration"@.len() != "interface_declaration"@.len());
    assert("enum_declaration"@ != "interface_declaration"@);
    let n = nodes.len() as int;
    let symbols = symbols_upto(language, nodes, path, n);
    match declared_kind(language, nodes, i) {
        Some(kind) => {
            lemma_symbol_listed(language, nodes, path, i, n);
            let s = symbol_at(language, nodes, path, i)->0;
            let k = choose|k: int| 0 <= k < symbols.len() && symbols[k] == s;
            assert(symbols[k].path == path && symbols[k].name == nodes[i].name->0 && symbols[k].kind == kind
                && symbols[k].line == nodes[i].line);
        },
        None => {},
    }
}

} // verus!
