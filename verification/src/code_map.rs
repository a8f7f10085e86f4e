//! A compact, evidence-oriented structural map of a repository's code:
//! symbols, direct calls, imports and the relationships between them.

use vstd::prelude::*;
use crate::inventory::{InventoryError, InventoryFile};
use crate::order::{
    Natural, SortKey, compare_strs, lemma_multiset_map, lemma_seq_order_facts, seq_le, seq_lt,
    sorted, sorted_unique, stable_sort, strictly_increasing, lemma_sorted_same_elements_equal,
};
use crate::inventory::Language;
use crate::syntax::{
    SyntaxNode, calls_upto, extract_imports, extract_symbols_and_calls, imports_upto, symbols_upto,
};
use crate::text::{decimal, decimal_chars, from_chars, push_all, push_str, strs};

verus! {

broadcast use vstd::string::group_string_axioms;

/// What a symbol declares.
#[derive(Debug, Clone, Copy, PartialEq, Eq, Structural)]
pub enum SymbolKind {
    Function,
    Method,
    Class,
    Interface,
    Trait,
    Struct,
    Enum,
    Module,
}

/// A declared symbol and where it stands.
#[derive(Debug)]
pub struct Symbol {
    pub path: String,
    pub name: String,
    pub kind: SymbolKind,
    pub line: usize,
    pub container: Option<String>,
}

/// How sure the map is of a fact.
#[derive(Debug, Clone, Copy, PartialEq, Eq, Structural)]
pub enum Confidence {
    Exact,
    Inferred,
    UserConfirmed,
}

/// The file and line a fact was read from.
#[derive(Debug)]
pub struct Evidence {
    pub path: String,
    pub line: usize,
}

/// A call from one function to another, both named.
#[derive(Debug)]
pub struct DirectCall {
    pub caller: String,
    pub callee: String,
    pub evidence: Evidence,
    pub confidence: Confidence,
}

/// A file that imports another file of the repository.
#[derive(Debug)]
pub struct Import {
    pub source_path: String,
    pub target_path: String,
    pub evidence: Evidence,
    pub confidence: Confidence,
}

/// The content of an import.
pub struct ImportView {
    pub source_path: Seq<char>,
    pub target_path: Seq<char>,
    pub evidence_path: Seq<char>,
    pub evidence_line: nat,
    pub confidence: Confidence,
}

impl View for Import {
    type V = ImportView;

    open spec fn view(&self) -> ImportView {
        ImportView {
            source_path: self.source_path@,
            target_path: self.target_path@,
            evidence_path: self.evidence.path@,
            evidence_line: self.evidence.line as nat,
            confidence: self.confidence,
        }
    }
}

/// The contents of a sequence of imports.
pub open spec fn import_views(v: Seq<Import>) -> Seq<ImportView> {
    v.map_values(|i: Import| i@)
}

/// The kind of a relationship.
#[derive(Debug, Clone, Copy, PartialEq, Eq, Structural)]
pub enum RelationKind {
    Contains,
    Defines,
    Imports,
    Calls,
    DependsOn,
}

/// An edge of the map.
#[derive(Debug)]
pub struct Relationship {
    pub kind: RelationKind,
    pub source: String,
    pub target: String,
    pub evidence: Evidence,
    pub confidence: Confidence,
}

/// The structural map of a repository.
#[derive(Debug)]
pub struct CodeMap {
    pub files: Vec<InventoryFile>,
    pub symbols: Vec<Symbol>,
    pub calls: Vec<DirectCall>,
    pub imports: Vec<Import>,
    pub relationships: Vec<Relationship>,
    pub unsupported_paths: Vec<String>,
}

/// Why a map could not be built.
#[derive(Debug)]
pub enum CodeMapError {
    Inventory(InventoryError),
}

impl CodeMapError {
    /// The error's text: that of the inventory error it carries.
    pub fn message(&self) -> (result: String)
        ensures
            match self {
                CodeMapError::Inventory(e) => match e {
                    InventoryError::Git { path, message } => result@
                        == "PMEMC could not inventory "@ + path@ + ": "@ + message@,
                    InventoryError::IgnoreRules { path, message } => result@
                        == "PMEMC could not read ignore rules from "@ + path@ + ": "@ + message@,
                },
            },
    {
        match self {
            CodeMapError::Inventory(e) => e.message(),
        }
    }
}

/// An equal copy of an optional string.
pub fn copy_option(value: &Option<String>) -> (result: Option<String>)
    ensures
        result == *value,
{
    match value {
        Some(s) => Some(s.clone()),
        None => None,
    }
}

impl Symbol {
    /// An equal copy of the symbol.
    pub fn duplicate(&self) -> (result: Self)
        ensures
            result == *self,
    {
        Symbol {
            path: self.path.clone(),
            name: self.name.clone(),
            kind: self.kind,
            line: self.line,
            container: copy_option(&self.container),
        }
    }
}

impl Evidence {
    /// An equal copy of the evidence.
    pub fn duplicate(&self) -> (result: Self)
        ensures
            result == *self,
    {
        Evidence { path: self.path.clone(), line: self.line }
    }
}

// ----------------------------------------------------------------------------
// Symbols
// ----------------------------------------------------------------------------

/// Whether a kind declares a type.
pub open spec fn type_kind(kind: SymbolKind) -> bool {
    kind == SymbolKind::Class || kind == SymbolKind::Interface || kind == SymbolKind::Trait
        || kind == SymbolKind::Struct || kind == SymbolKind::Enum
}

/// Whether a kind declares something callable.
pub open spec fn callable_kind(kind: SymbolKind) -> bool {
    kind == SymbolKind::Function || kind == SymbolKind::Method
}

/// Whether `symbol` declares a type.
pub fn is_type_symbol(symbol: &Symbol) -> (result: bool)
    ensures
        result == type_kind(symbol.kind),
{
    match symbol.kind {
        SymbolKind::Class | SymbolKind::Interface | SymbolKind::Trait | SymbolKind::Struct
        | SymbolKind::Enum => true,
        _ => false,
    }
}

/// The identifier of a symbol: `path:line:name`.
pub open spec fn symbol_key(path: Seq<char>, line: nat, name: Seq<char>) -> Seq<char> {
    path + ":"@ + decimal(line) + ":"@ + name
}

/// The identifier of `symbol`.
pub fn symbol_id(symbol: &Symbol) -> (result: String)
    ensures
        result@ == symbol_key(symbol.path@, symbol.line as nat, symbol.name@),
{
    let mut out: Vec<char> = Vec::new();
    push_str(&mut out, symbol.path.as_str());
    push_str(&mut out, ":");
    let digits = decimal_chars(symbol.line as u64);
    push_all(&mut out, &digits);
    push_str(&mut out, ":");
    push_str(&mut out, symbol.name.as_str());
    from_chars(out.as_slice())
}

// ----------------------------------------------------------------------------
// Relationships between a type and its members
// ----------------------------------------------------------------------------

/// The content of a relationship.
pub struct RelationshipView {
    pub kind: RelationKind,
    pub source: Seq<char>,
    pub target: Seq<char>,
    pub evidence_path: Seq<char>,
    pub evidence_line: nat,
    pub confidence: Confidence,
}

impl View for Relationship {
    type V = RelationshipView;

    open spec fn view(&self) -> RelationshipView {
        RelationshipView {
            kind: self.kind,
            source: self.source@,
            target: self.target@,
            evidence_path: self.evidence.path@,
            evidence_line: self.evidence.line as nat,
            confidence: self.confidence,
        }
    }
}

/// The contents of a sequence of relationships.
pub open spec fn relationship_views(v: Seq<Relationship>) -> Seq<RelationshipView> {
    v.map_values(|r: Relationship| r@)
}

/// The type symbols of `path` named `name`.
pub open spec fn types_named(symbols: Seq<Symbol>, path: Seq<char>, name: Seq<char>) -> Seq<Symbol>
    decreases symbols.len(),
{
    if symbols.len() == 0 {
        Seq::<Symbol>::empty()
    } else {
        let prev = types_named(symbols.drop_last(), path, name);
        let s = symbols.last();
        if s.path@ == path && s.name@ == name && type_kind(s.kind) {
            prev.push(s)
        } else {
            prev
        }
    }
}

/// The relationship from the one type that contains `member`, when its
/// container names exactly one type of the member's file.
pub open spec fn member_relationship(symbols: Seq<Symbol>, member: Symbol) -> Option<
    RelationshipView,
> {
    match member.container {
        None => None,
        Some(c) => {
            let types = types_named(symbols, member.path@, c@);
            if types.len() == 1 {
                Some(
                    RelationshipView {
                        kind: RelationKind::Contains,
                        source: symbol_key(types[0].path@, types[0].line as nat, types[0].name@),
                        target: symbol_key(member.path@, member.line as nat, member.name@),
                        evidence_path: member.path@,
                        evidence_line: member.line as nat,
                        confidence: Confidence::Exact,
                    },
                )
            } else {
                None
            }
        },
    }
}

/// The containment relationships of `members`, in order.
pub open spec fn member_relationships(symbols: Seq<Symbol>, members: Seq<Symbol>) -> Seq<
    RelationshipView,
>
    decreases members.len(),
{
    if members.len() == 0 {
        Seq::<RelationshipView>::empty()
    } else {
        let prev = member_relationships(symbols, members.drop_last());
        match member_relationship(symbols, members.last()) {
            Some(r) => prev.push(r),
            None => prev,
        }
    }
}

/// The first two type symbols of `path` named `name`, if any.
fn find_types(symbols: &Vec<Symbol>, path: &String, name: &String) -> (result: (
    Option<usize>,
    bool,
))
    ensures
        match result.0 {
            None => types_named(symbols@, path@, name@).len() == 0,
            Some(i) => i < symbols.len() && types_named(symbols@, path@, name@).len() >= 1
                && types_named(symbols@, path@, name@)[0] == symbols@[i as int] && (result.1
                <==> types_named(symbols@, path@, name@).len() >= 2),
        },
{
    let mut first: Option<usize> = None;
    let mut more = false;
    let mut i: usize = 0;
    while i < symbols.len()
        invariant
            i <= symbols.len(),
            match first {
                None => types_named(symbols@.take(i as int), path@, name@).len() == 0 && !more,
                Some(k) => k < i && types_named(symbols@.take(i as int), path@, name@).len() >= 1
                    && types_named(symbols@.take(i as int), path@, name@)[0] == symbols@[k as int]
                    && (more <==> types_named(symbols@.take(i as int), path@, name@).len() >= 2),
            },
        decreases symbols.len() - i,
    {
        assert(symbols@.take(i + 1).drop_last() =~= symbols@.take(i as int));
        assert(symbols@.take(i + 1).last() == symbols@[i as int]);
        let s = &symbols[i];
        if s.path == *path && s.name == *name && is_type_symbol(s) {
            match first {
                None => {
                    first = Some(i);
                },
                Some(_) => {
                    more = true;
                },
            }
        }
        i = i + 1;
    }
    assert(symbols@.take(i as int) =~= symbols@);
    (first, more)
}

/// The containment relationships from types to their members: one for each
/// member whose container names exactly one type of the same file.
pub fn type_member_relationships(symbols: &Vec<Symbol>) -> (result: Vec<Relationship>)
    ensures
        relationship_views(result@) == member_relationships(symbols@, symbols@),
{
    let mut result: Vec<Relationship> = Vec::new();
    let mut i: usize = 0;
    while i < symbols.len()
        invariant
            i <= symbols.len(),
            relationship_views(result@) == member_relationships(symbols@, symbols@.take(i as int)),
        decreases symbols.len() - i,
    {
        assert(symbols@.take(i + 1).drop_last() =~= symbols@.take(i as int));
        assert(symbols@.take(i + 1).last() == symbols@[i as int]);
        let member = &symbols[i];
        match &member.container {
            None => {},
            Some(c) => {
                let (found, more) = find_types(symbols, &member.path, c);
                match found {
                    Some(k) => {
                        if !more {
                            let ghost before = result@;
                            let source = symbol_id(&symbols[k]);
                            let target = symbol_id(member);
                            result.push(
                                Relationship {
                                    kind: RelationKind::Contains,
                                    source,
                                    target,
                                    evidence: Evidence { path: member.path.clone(), line: member.line },
                                    confidence: Confidence::Exact,
                                },
                            );
                            assert(relationship_views(result@) =~= relationship_views(before).push(
                                result@.last()@,
                            ));
                        }
                    },
                    None => {},
                }
            },
        }
        i = i + 1;
    }
    assert(symbols@.take(i as int) =~= symbols@);
    result
}

// ----------------------------------------------------------------------------
// Direct-call neighbours
// ----------------------------------------------------------------------------

/// The other end of `call` when one end is `name`: the callee when `name`
/// calls, else the caller when `name` is called.
pub open spec fn call_neighbor(call: DirectCall, name: Seq<char>) -> Option<Seq<char>> {
    if call.caller@ == name {
        Some(call.callee@)
    } else if call.callee@ == name {
        Some(call.caller@)
    } else {
        None
    }
}

/// Whether `other` is a direct-call neighbour of `name`.
pub open spec fn is_neighbor(calls: Seq<DirectCall>, name: Seq<char>, other: Seq<char>) -> bool {
    exists|i: int| 0 <= i < calls.len() && #[trigger] call_neighbor(calls[i], name) == Some(other)
}

/// The callable symbols named after a neighbour of `name`, in map order.
pub open spec fn neighbor_symbols(symbols: Seq<Symbol>, calls: Seq<DirectCall>, name: Seq<char>) -> Seq<
    Symbol,
>
    decreases symbols.len(),
{
    if symbols.len() == 0 {
        Seq::<Symbol>::empty()
    } else {
        let prev = neighbor_symbols(symbols.drop_last(), calls, name);
        let s = symbols.last();
        if callable_kind(s.kind) && is_neighbor(calls, name, s.name@) {
            prev.push(s)
        } else {
            prev
        }
    }
}

fn has_neighbor(calls: &Vec<DirectCall>, name: &str, other: &String) -> (result: bool)
    ensures
        result == is_neighbor(calls@, name@, other@),
{
    let mut i: usize = 0;
    while i < calls.len()
        invariant
            i <= calls.len(),
            forall|j: int| 0 <= j < i ==> #[trigger] call_neighbor(calls@[j], name@) != Some(
                other@,
            ),
        decreases calls.len() - i,
    {
        let call = &calls[i];
        let c = compare_strs(call.caller.as_str(), name);
        if c == 0 {
            if call.callee == *other {
                assert(call_neighbor(calls@[i as int], name@) == Some(other@));
                return true;
            }
        } else {
            let d = compare_strs(call.callee.as_str(), name);
            if d == 0 && call.caller == *other {
                assert(call_neighbor(calls@[i as int], name@) == Some(other@));
                return true;
            }
        }
        i = i + 1;
    }
    false
}

/// Orders symbols by name, then path, then line.
pub struct ByNamePathLine;

/// Orders symbols by path, then line, then name.
pub struct ByPathLineName;

impl SortKey<ByNamePathLine> for Symbol {
    open spec fn key_le(&self, other: &Self) -> bool {
        ||| seq_lt(self.name@, other.name@)
        ||| self.name@ == other.name@ && seq_lt(self.path@, other.path@)
        ||| self.name@ == other.name@ && self.path@ == other.path@ && self.line <= other.line
    }

    fn le(&self, other: &Self) -> (result: bool) {
        let n = compare_strs(self.name.as_str(), other.name.as_str());
        if n != 0 {
            return n < 0;
        }
        let p = compare_strs(self.path.as_str(), other.path.as_str());
        if p != 0 {
            return p < 0;
        }
        self.line <= other.line
    }

    proof fn lemma_total(a: &Self, b: &Self) {
        lemma_seq_order_facts(a.name@, b.name@, b.name@);
        lemma_seq_order_facts(a.path@, b.path@, b.path@);
    }

    proof fn lemma_transitive(a: &Self, b: &Self, c: &Self) {
        lemma_seq_order_facts(a.name@, b.name@, c.name@);
        lemma_seq_order_facts(a.path@, b.path@, c.path@);
    }
}

impl SortKey<ByPathLineName> for Symbol {
    open spec fn key_le(&self, other: &Self) -> bool {
        ||| seq_lt(self.path@, other.path@)
        ||| self.path@ == other.path@ && self.line < other.line
        ||| self.path@ == other.path@ && self.line == other.line && seq_le(self.name@, other.name@)
    }

    fn le(&self, other: &Self) -> (result: bool) {
        let p = compare_strs(self.path.as_str(), other.path.as_str());
        if p != 0 {
            return p < 0;
        }
        if self.line != other.line {
            return self.line < other.line;
        }
        proof {
            lemma_seq_order_facts(self.name@, other.name@, other.name@);
        }
        compare_strs(self.name.as_str(), other.name.as_str()) <= 0
    }

    proof fn lemma_total(a: &Self, b: &Self) {
        lemma_seq_order_facts(a.name@, b.name@, b.name@);
        lemma_seq_order_facts(a.path@, b.path@, b.path@);
    }

    proof fn lemma_transitive(a: &Self, b: &Self, c: &Self) {
        lemma_seq_order_facts(a.name@, b.name@, c.name@);
        lemma_seq_order_facts(a.path@, b.path@, c.path@);
    }
}

/// The functions and methods that call, or are called by, `symbol_name`,
/// ordered by name, path and line.
pub fn structural_neighbors(map: &CodeMap, symbol_name: &str) -> (result: Vec<Symbol>)
    ensures
        sorted::<ByNamePathLine, Symbol>(result@),
        result@.to_multiset() == neighbor_symbols(map.symbols@, map.calls@, symbol_name@).to_multiset(),
{
    let mut found: Vec<Symbol> = Vec::new();
    let mut i: usize = 0;
    while i < map.symbols.len()
        invariant
            i <= map.symbols.len(),
            found@ == neighbor_symbols(map.symbols@.take(i as int), map.calls@, symbol_name@),
        decreases map.symbols.len() - i,
    {
        assert(map.symbols@.take(i + 1).drop_last() =~= map.symbols@.take(i as int));
        assert(map.symbols@.take(i + 1).last() == map.symbols@[i as int]);
        let s = &map.symbols[i];
        let callable = match s.kind {
            SymbolKind::Function | SymbolKind::Method => true,
            _ => false,
        };
        if callable && has_neighbor(&map.calls, symbol_name, &s.name) {
            found.push(s.duplicate());
        }
        i = i + 1;
    }
    assert(map.symbols@.take(i as int) =~= map.symbols@);
    stable_sort::<ByNamePathLine, Symbol>(found)
}

// ----------------------------------------------------------------------------
// Assembling the map
// ----------------------------------------------------------------------------

/// What could be read of one inventoried file.
#[derive(Debug)]
pub enum FileSource {
    /// The file could not be opened, read or parsed without errors.
    Unavailable,
    /// The parsed file's nodes.
    Parsed(Vec<SyntaxNode>),
}

/// The languages whose structure the map reads.
pub open spec fn structural(language: Language) -> bool {
    language == Language::Rust || language == Language::Python || language == Language::JavaScript
        || language == Language::TypeScript || language == Language::Jsx || language
        == Language::Tsx || language == Language::Java || language == Language::Go
}

fn is_structural(language: Language) -> (result: bool)
    ensures
        result == structural(language),
{
    match language {
        Language::Rust | Language::Python | Language::JavaScript | Language::TypeScript
        | Language::Jsx | Language::Tsx | Language::Java | Language::Go => true,
        _ => false,
    }
}

/// The symbols of the first `n` files, file by file.
pub open spec fn file_symbols(files: Seq<InventoryFile>, sources: Seq<FileSource>, n: int) -> Seq<
    Symbol,
>
    decreases n,
{
    if n <= 0 {
        Seq::<Symbol>::empty()
    } else {
        let prev = file_symbols(files, sources, n - 1);
        let f = files[n - 1];
        match sources[n - 1] {
            FileSource::Parsed(nodes) => if structural(f.language) {
                prev + symbols_upto(f.language, nodes@, f.path, nodes@.len() as int)
            } else {
                prev
            },
            FileSource::Unavailable => prev,
        }
    }
}

/// The candidate direct calls of the first `n` files.
pub open spec fn file_calls(files: Seq<InventoryFile>, sources: Seq<FileSource>, n: int) -> Seq<
    DirectCall,
>
    decreases n,
{
    if n <= 0 {
        Seq::<DirectCall>::empty()
    } else {
        let prev = file_calls(files, sources, n - 1);
        let f = files[n - 1];
        match sources[n - 1] {
            FileSource::Parsed(nodes) => if structural(f.language) {
                prev + calls_upto(f.language, nodes@, f.path, nodes@.len() as int)
            } else {
                prev
            },
            FileSource::Unavailable => prev,
        }
    }
}

/// The imports of the first `n` files.
pub open spec fn file_imports(
    files: Seq<InventoryFile>,
    sources: Seq<FileSource>,
    known: Seq<Seq<char>>,
    module_name: Option<Seq<char>>,
    n: int,
) -> Seq<ImportView>
    decreases n,
{
    if n <= 0 {
        Seq::<ImportView>::empty()
    } else {
        let prev = file_imports(files, sources, known, module_name, n - 1);
        let f = files[n - 1];
        match sources[n - 1] {
            FileSource::Parsed(nodes) => if structural(f.language) {
                prev + imports_upto(
                    f.language,
                    nodes@,
                    f.path@,
                    known,
                    module_name,
                    nodes@.len() as int,
                )
            } else {
                prev
            },
            FileSource::Unavailable => prev,
        }
    }
}

/// The files of the first `n` whose structure could not be read: those of
/// a structural language that were unavailable, and those of an
/// unsupported language.
pub open spec fn unsupported_files(files: Seq<InventoryFile>, sources: Seq<FileSource>, n: int) -> Seq<
    String,
>
    decreases n,
{
    if n <= 0 {
        Seq::<String>::empty()
    } else {
        let prev = unsupported_files(files, sources, n - 1);
        let f = files[n - 1];
        if structural(f.language) {
            match sources[n - 1] {
                FileSource::Unavailable => prev.push(f.path),
                FileSource::Parsed(_) => prev,
            }
        } else if f.language != Language::GenericText {
            prev.push(f.path)
        } else {
            prev
        }
    }
}

/// The paths of the inventoried files.
pub open spec fn file_paths(files: Seq<InventoryFile>) -> Seq<Seq<char>> {
    files.map_values(|f: InventoryFile| f.path@)
}

/// The number of callable symbols named `name`.
pub open spec fn callable_count(symbols: Seq<Symbol>, name: Seq<char>) -> nat
    decreases symbols.len(),
{
    if symbols.len() == 0 {
        0
    } else {
        callable_count(symbols.drop_last(), name) + if callable_kind(symbols.last().kind)
            && symbols.last().name@ == name {
            1nat
        } else {
            0nat
        }
    }
}

/// The calls whose caller and callee each name exactly one callable symbol.
pub open spec fn unambiguous_calls(calls: Seq<DirectCall>, symbols: Seq<Symbol>) -> Seq<DirectCall>
    decreases calls.len(),
{
    if calls.len() == 0 {
        calls
    } else {
        let prev = unambiguous_calls(calls.drop_last(), symbols);
        let c = calls.last();
        if callable_count(symbols, c.caller@) == 1 && callable_count(symbols, c.callee@) == 1 {
            prev.push(c)
        } else {
            prev
        }
    }
}

fn count_callable(symbols: &Vec<Symbol>, name: &String) -> (result: usize)
    ensures
        result as nat == callable_count(symbols@, name@),
{
    let mut count: usize = 0;
    let mut i: usize = 0;
    while i < symbols.len()
        invariant
            i <= symbols.len(),
            count as nat == callable_count(symbols@.take(i as int), name@),
            count <= i,
        decreases symbols.len() - i,
    {
        assert(symbols@.take(i + 1).drop_last() =~= symbols@.take(i as int));
        assert(symbols@.take(i + 1).last() == symbols@[i as int]);
        let s = &symbols[i];
        let callable = match s.kind {
            SymbolKind::Function | SymbolKind::Method => true,
            _ => false,
        };
        if callable && s.name == *name {
            count = count + 1;
        }
        i = i + 1;
    }
    assert(symbols@.take(i as int) =~= symbols@);
    count
}

/// Keeps the calls between unambiguous callables.
fn keep_unambiguous(calls: Vec<DirectCall>, symbols: &Vec<Symbol>) -> (result: Vec<DirectCall>)
    ensures
        result@ == unambiguous_calls(calls@, symbols@),
{
    let mut rest = calls;
    let ghost all = rest@;
    let mut kept: Vec<DirectCall> = Vec::new();
    let mut i: usize = 0;
    let n = rest.len();
    while i < n
        invariant
            i <= n,
            n == all.len(),
            rest@ == all.skip(i as int),
            kept@ == unambiguous_calls(all.take(i as int), symbols@),
        decreases n - i,
    {
        assert(all.take(i + 1).drop_last() =~= all.take(i as int));
        assert(rest@[0] == all[i as int]);
        let call = rest.remove(0);
        assert(rest@ =~= all.skip(i + 1));
        let a = count_callable(symbols, &call.caller);
        let b = count_callable(symbols, &call.callee);
        if a == 1 && b == 1 {
            kept.push(call);
        }
        i = i + 1;
    }
    assert(all.take(i as int) =~= all);
    kept
}

/// The contents of the first `n` files, gathered file by file.
#[verifier::rlimit(50)]
fn gather(
    files: &Vec<InventoryFile>,
    sources: &Vec<FileSource>,
    known: &Vec<String>,
    module_name: Option<&str>,
) -> (result: (Vec<Symbol>, Vec<DirectCall>, Vec<Import>, Vec<String>))
    requires
        files.len() == sources.len(),
    ensures
        result.0@ == file_symbols(files@, sources@, files.len() as int),
        result.1@ == file_calls(files@, sources@, files.len() as int),
        import_views(result.2@) == file_imports(
            files@,
            sources@,
            strs(known@),
            crate::auth::opt_str(module_name),
            files.len() as int,
        ),
        result.3@ == unsupported_files(files@, sources@, files.len() as int),
{
    let mut symbols: Vec<Symbol> = Vec::new();
    let mut calls: Vec<DirectCall> = Vec::new();
    let mut imports: Vec<Import> = Vec::new();
    let mut unsupported: Vec<String> = Vec::new();
    let mut i: usize = 0;
    while i < files.len()
        invariant
            i <= files.len(),
            files.len() == sources.len(),
            symbols@ == file_symbols(files@, sources@, i as int),
            calls@ == file_calls(files@, sources@, i as int),
            import_views(imports@) == file_imports(
                files@,
                sources@,
                strs(known@),
                crate::auth::opt_str(module_name),
                i as int,
            ),
            unsupported@ == unsupported_files(files@, sources@, i as int),
        decreases files.len() - i,
    {
        let file = &files[i];
        if is_structural(file.language) {
            match &sources[i] {
                FileSource::Unavailable => {
                    unsupported.push(file.path.clone());
                },
                FileSource::Parsed(nodes) => {
                    let (mut s, mut c) = extract_symbols_and_calls(file.language, nodes, &file.path);
                    let mut im = extract_imports(file.language, nodes, &file.path, known, module_name);
                    let ghost s0 = symbols@;
                    let ghost c0 = calls@;
                    let ghost i0 = imports@;
                    let ghost sv = s@;
                    let ghost cv = c@;
                    let ghost iv = im@;
                    symbols.append(&mut s);
                    calls.append(&mut c);
                    imports.append(&mut im);
                    assert(import_views(imports@) =~= import_views(i0) + import_views(iv));
                },
            }
        } else if file.language != Language::GenericText {
            unsupported.push(file.path.clone());
        }
        i = i + 1;
    }
    (symbols, calls, imports, unsupported)
}

impl SortKey<Natural> for DirectCall {
    open spec fn key_le(&self, other: &Self) -> bool {
        ||| seq_lt(self.caller@, other.caller@)
        ||| self.caller@ == other.caller@ && seq_le(self.callee@, other.callee@)
    }

    fn le(&self, other: &Self) -> (result: bool) {
        let a = compare_strs(self.caller.as_str(), other.caller.as_str());
        if a != 0 {
            return a < 0;
        }
        proof {
            lemma_seq_order_facts(self.callee@, other.callee@, other.callee@);
        }
        compare_strs(self.callee.as_str(), other.callee.as_str()) <= 0
    }

    proof fn lemma_total(a: &Self, b: &Self) {
        lemma_seq_order_facts(a.caller@, b.caller@, b.caller@);
        lemma_seq_order_facts(a.callee@, b.callee@, b.callee@);
    }

    proof fn lemma_transitive(a: &Self, b: &Self, c: &Self) {
        lemma_seq_order_facts(a.caller@, b.caller@, c.caller@);
        lemma_seq_order_facts(a.callee@, b.callee@, c.callee@);
    }
}

impl SortKey<Natural> for Import {
    open spec fn key_le(&self, other: &Self) -> bool {
        ||| seq_lt(self.source_path@, other.source_path@)
        ||| self.source_path@ == other.source_path@ && seq_lt(self.target_path@, other.target_path@)
        ||| self.source_path@ == other.source_path@ && self.target_path@ == other.target_path@
            && self.evidence.line <= other.evidence.line
    }

    fn le(&self, other: &Self) -> (result: bool) {
        let a = compare_strs(self.source_path.as_str(), other.source_path.as_str());
        if a != 0 {
            return a < 0;
        }
        let b = compare_strs(self.target_path.as_str(), other.target_path.as_str());
        if b != 0 {
            return b < 0;
        }
        self.evidence.line <= other.evidence.line
    }

    proof fn lemma_total(a: &Self, b: &Self) {
        lemma_seq_order_facts(a.source_path@, b.source_path@, b.source_path@);
        lemma_seq_order_facts(a.target_path@, b.target_path@, b.target_path@);
    }

    proof fn lemma_transitive(a: &Self, b: &Self, c: &Self) {
        lemma_seq_order_facts(a.source_path@, b.source_path@, c.source_path@);
        lemma_seq_order_facts(a.target_path@, b.target_path@, c.target_path@);
    }
}

/// The position of a relationship kind in declaration order.
pub open spec fn kind_rank(kind: RelationKind) -> nat {
    match kind {
        RelationKind::Contains => 0,
        RelationKind::Defines => 1,
        RelationKind::Imports => 2,
        RelationKind::Calls => 3,
        RelationKind::DependsOn => 4,
    }
}

fn rank_of(kind: RelationKind) -> (result: u8)
    ensures
        result as nat == kind_rank(kind),
{
    match kind {
        RelationKind::Contains => 0,
        RelationKind::Defines => 1,
        RelationKind::Imports => 2,
        RelationKind::Calls => 3,
        RelationKind::DependsOn => 4,
    }
}

impl SortKey<Natural> for Relationship {
    open spec fn key_le(&self, other: &Self) -> bool {
        ||| seq_lt(self.source@, other.source@)
        ||| self.source@ == other.source@ && seq_lt(self.target@, other.target@)
        ||| self.source@ == other.source@ && self.target@ == other.target@ && kind_rank(self.kind)
            <= kind_rank(other.kind)
    }

    fn le(&self, other: &Self) -> (result: bool) {
        let a = compare_strs(self.source.as_str(), other.source.as_str());
        if a != 0 {
            return a < 0;
        }
        let b = compare_strs(self.target.as_str(), other.target.as_str());
        if b != 0 {
            return b < 0;
        }
        rank_of(self.kind) <= rank_of(other.kind)
    }

    proof fn lemma_total(a: &Self, b: &Self) {
        lemma_seq_order_facts(a.source@, b.source@, b.source@);
        lemma_seq_order_facts(a.target@, b.target@, b.target@);
    }

    proof fn lemma_transitive(a: &Self, b: &Self, c: &Self) {
        lemma_seq_order_facts(a.source@, b.source@, c.source@);
        lemma_seq_order_facts(a.target@, b.target@, c.target@);
    }
}

/// `repository` contains each file.
pub open spec fn containment_views(files: Seq<InventoryFile>) -> Seq<RelationshipView>
    decreases files.len(),
{
    if files.len() == 0 {
        Seq::<RelationshipView>::empty()
    } else {
        let f = files.last();
        containment_views(files.drop_last()).push(
            RelationshipView {
                kind: RelationKind::Contains,
                source: "repository"@,
                target: f.path@,
                evidence_path: f.path@,
                evidence_line: 1,
                confidence: Confidence::Exact,
            },
        )
    }
}

/// Each file defines its symbols.
pub open spec fn definition_views(symbols: Seq<Symbol>) -> Seq<RelationshipView>
    decreases symbols.len(),
{
    if symbols.len() == 0 {
        Seq::<RelationshipView>::empty()
    } else {
        let s = symbols.last();
        definition_views(symbols.drop_last()).push(
            RelationshipView {
                kind: RelationKind::Defines,
                source: s.path@,
                target: symbol_key(s.path@, s.line as nat, s.name@),
                evidence_path: s.path@,
                evidence_line: s.line as nat,
                confidence: Confidence::Exact,
            },
        )
    }
}

/// Each import as a relationship.
pub open spec fn import_relationship_views(imports: Seq<ImportView>) -> Seq<RelationshipView>
    decreases imports.len(),
{
    if imports.len() == 0 {
        Seq::<RelationshipView>::empty()
    } else {
        let i = imports.last();
        import_relationship_views(imports.drop_last()).push(
            RelationshipView {
                kind: RelationKind::Imports,
                source: i.source_path,
                target: i.target_path,
                evidence_path: i.evidence_path,
                evidence_line: i.evidence_line,
                confidence: i.confidence,
            },
        )
    }
}

/// Each direct call as a relationship.
pub open spec fn call_relationship_views(calls: Seq<DirectCall>) -> Seq<RelationshipView>
    decreases calls.len(),
{
    if calls.len() == 0 {
        Seq::<RelationshipView>::empty()
    } else {
        let c = calls.last();
        call_relationship_views(calls.drop_last()).push(
            RelationshipView {
                kind: RelationKind::Calls,
                source: c.caller@,
                target: c.callee@,
                evidence_path: c.evidence.path@,
                evidence_line: c.evidence.line as nat,
                confidence: c.confidence,
            },
        )
    }
}

/// Every relationship of a map with these parts.
pub open spec fn all_relationships(
    files: Seq<InventoryFile>,
    symbols: Seq<Symbol>,
    imports: Seq<ImportView>,
    calls: Seq<DirectCall>,
) -> Seq<RelationshipView> {
    containment_views(files) + definition_views(symbols) + member_relationships(symbols, symbols)
        + import_relationship_views(imports) + call_relationship_views(calls)
}

fn relationships_of(
    files: &Vec<InventoryFile>,
    symbols: &Vec<Symbol>,
    imports: &Vec<Import>,
    calls: &Vec<DirectCall>,
) -> (result: Vec<Relationship>)
    ensures
        relationship_views(result@) == all_relationships(
            files@,
            symbols@,
            import_views(imports@),
            calls@,
        ),
{
    let mut out: Vec<Relationship> = Vec::new();
    let mut i: usize = 0;
    while i < files.len()
        invariant
            i <= files.len(),
            relationship_views(out@) == containment_views(files@.take(i as int)),
        decreases files.len() - i,
    {
        assert(files@.take(i + 1).drop_last() =~= files@.take(i as int));
        let ghost before = out@;
        let f = &files[i];
        out.push(
            Relationship {
                kind: RelationKind::Contains,
                source: crate::text::owned("repository"),
                target: f.path.clone(),
                evidence: Evidence { path: f.path.clone(), line: 1 },
                confidence: Confidence::Exact,
            },
        );
        assert(relationship_views(out@) =~= relationship_views(before).push(out@.last()@));
        i = i + 1;
    }
    assert(files@.take(i as int) =~= files@);
    let ghost part1 = relationship_views(out@);
    let mut defs: Vec<Relationship> = Vec::new();
    let mut j: usize = 0;
    while j < symbols.len()
        invariant
            j <= symbols.len(),
            relationship_views(defs@) == definition_views(symbols@.take(j as int)),
        decreases symbols.len() - j,
    {
        assert(symbols@.take(j + 1).drop_last() =~= symbols@.take(j as int));
        let ghost before = defs@;
        let s = &symbols[j];
        defs.push(
            Relationship {
                kind: RelationKind::Defines,
                source: s.path.clone(),
                target: symbol_id(s),
                evidence: Evidence { path: s.path.clone(), line: s.line },
                confidence: Confidence::Exact,
            },
        );
        assert(relationship_views(defs@) =~= relationship_views(before).push(defs@.last()@));
        j = j + 1;
    }
    assert(symbols@.take(j as int) =~= symbols@);
    let mut members = type_member_relationships(symbols);
    let mut imps: Vec<Relationship> = Vec::new();
    let mut k: usize = 0;
    while k < imports.len()
        invariant
            k <= imports.len(),
            relationship_views(imps@) == import_relationship_views(
                import_views(imports@).take(k as int),
            ),
        decreases imports.len() - k,
    {
        assert(import_views(imports@).take(k + 1).drop_last() =~= import_views(imports@).take(
            k as int,
        ));
        assert(import_views(imports@).take(k + 1).last() == imports@[k as int]@);
        let ghost before = imps@;
        let im = &imports[k];
        imps.push(
            Relationship {
                kind: RelationKind::Imports,
                source: im.source_path.clone(),
                target: im.target_path.clone(),
                evidence: im.evidence.duplicate(),
                confidence: im.confidence,
            },
        );
        assert(relationship_views(imps@) =~= relationship_views(before).push(imps@.last()@));
        k = k + 1;
    }
    assert(import_views(imports@).take(k as int) =~= import_views(imports@));
    let mut cs: Vec<Relationship> = Vec::new();
    let mut m: usize = 0;
    while m < calls.len()
        invariant
            m <= calls.len(),
            relationship_views(cs@) == call_relationship_views(calls@.take(m as int)),
        decreases calls.len() - m,
    {
        assert(calls@.take(m + 1).drop_last() =~= calls@.take(m as int));
        let ghost before = cs@;
        let c = &calls[m];
        cs.push(
            Relationship {
                kind: RelationKind::Calls,
                source: c.caller.clone(),
                target: c.callee.clone(),
                evidence: c.evidence.duplicate(),
                confidence: c.confidence,
            },
        );
        assert(relationship_views(cs@) =~= relationship_views(before).push(cs@.last()@));
        m = m + 1;
    }
    assert(calls@.take(m as int) =~= calls@);
    let ghost o = out@;
    let ghost d = defs@;
    let ghost me = members@;
    let ghost ip = imps@;
    let ghost cc = cs@;
    out.append(&mut defs);
    out.append(&mut members);
    out.append(&mut imps);
    out.append(&mut cs);
    assert(relationship_views(out@) =~= relationship_views(o) + relationship_views(d)
        + relationship_views(me) + relationship_views(ip) + relationship_views(cc));
    out
}

/// Builds the map of the inventoried `files` from what was read of each
/// (`sources[i]` for `files[i]`) and the Go module path, if any.  Every
/// list is sorted: symbols by path, line and name; calls by caller and
/// callee; imports by source, target and line; relationships by source,
/// target and kind.  Only calls whose caller and callee each name exactly
/// one function or method are kept.
pub fn assemble_code_map(
    files: Vec<InventoryFile>,
    sources: Vec<FileSource>,
    module_name: Option<String>,
) -> (result: CodeMap)
    requires
        files.len() == sources.len(),
    ensures
        result.files@ == files@,
        sorted::<ByPathLineName, Symbol>(result.symbols@),
        result.symbols@.to_multiset() == file_symbols(files@, sources@, files.len() as int).to_multiset(),
        sorted::<Natural, DirectCall>(result.calls@),
        result.calls@.to_multiset() == unambiguous_calls(
            file_calls(files@, sources@, files.len() as int),
            file_symbols(files@, sources@, files.len() as int),
        ).to_multiset(),
        sorted::<Natural, Import>(result.imports@),
        exists|known: Seq<Seq<char>>|
            strictly_increasing(known) && (forall|x: Seq<char>|
                #[trigger] known.contains(x) == file_paths(files@).contains(x)) && import_views(
                result.imports@,
            ).to_multiset() == file_imports(
                files@,
                sources@,
                known,
                match module_name {
                    Some(m) => Some(m@),
                    None => None,
                },
                files.len() as int,
            ).to_multiset(),
        sorted::<Natural, String>(result.unsupported_paths@),
        result.unsupported_paths@.to_multiset() == unsupported_files(
            files@,
            sources@,
            files.len() as int,
        ).to_multiset(),
        sorted::<Natural, Relationship>(result.relationships@),
        relationship_views(result.relationships@).to_multiset() == all_relationships(
            result.files@,
            result.symbols@,
            import_views(result.imports@),
            result.calls@,
        ).to_multiset(),
{
    let mut paths: Vec<String> = Vec::new();
    let mut i: usize = 0;
    while i < files.len()
        invariant
            i <= files.len(),
            strs(paths@) == file_paths(files@.take(i as int)),
        decreases files.len() - i,
    {
        let ghost before = paths@;
        paths.push(files[i].path.clone());
        assert(strs(paths@) =~= strs(before).push(files@[i as int].path@));
        assert(file_paths(files@.take(i + 1)) =~= file_paths(files@.take(i as int)).push(
            files@[i as int].path@,
        ));
        i = i + 1;
    }
    assert(files@.take(i as int) =~= files@);
    let known = sorted_unique(paths);
    let module_ref: Option<&str> = match &module_name {
        Some(m) => Some(m.as_str()),
        None => None,
    };
    let (symbols, candidate_calls, imports, unsupported) = gather(
        &files,
        &sources,
        &known,
        module_ref,
    );
    let ghost all_symbols = symbols@;
    let ghost all_imports = imports@;
    let calls = keep_unambiguous(candidate_calls, &symbols);
    let symbols = stable_sort::<ByPathLineName, Symbol>(symbols);
    let calls = stable_sort::<Natural, DirectCall>(calls);
    let unsupported_paths = stable_sort::<Natural, String>(unsupported);
    let imports = stable_sort::<Natural, Import>(imports);
    proof {
        lemma_multiset_map(imports@, all_imports, |x: Import| x@);
        assert(import_views(imports@) == imports@.map_values(|x: Import| x@));
        assert(import_views(all_imports) == all_imports.map_values(|x: Import| x@));
        assert(strs(known@) == strs(known@));
    }
    let relationships = relationships_of(&files, &symbols, &imports, &calls);
    let ghost unsorted = relationships@;
    let relationships = stable_sort::<Natural, Relationship>(relationships);
    proof {
        lemma_multiset_map(relationships@, unsorted, |x: Relationship| x@);
        assert(relationship_views(relationships@) == relationships@.map_values(
            |x: Relationship| x@,
        ));
        assert(relationship_views(unsorted) == unsorted.map_values(|x: Relationship| x@));
    }
    CodeMap { files, symbols, calls, imports, relationships, unsupported_paths }
}

// ----------------------------------------------------------------------------
// Laws of direct-call neighbours
// ----------------------------------------------------------------------------

/// Whether `s` is a callable symbol named after a neighbour of `name`.
pub open spec fn neighbor_symbol(calls: Seq<DirectCall>, name: Seq<char>, s: Symbol) -> bool {
    callable_kind(s.kind) && is_neighbor(calls, name, s.name@)
}

proof fn lemma_neighbor_symbols_members(symbols: Seq<Symbol>, calls: Seq<DirectCall>, name: Seq<char>, k: int)
    requires
        0 <= k < neighbor_symbols(symbols, calls, name).len(),
    ensures
        neighbor_symbol(calls, name, neighbor_symbols(symbols, calls, name)[k]),
    decreases symbols.len(),
{
    let prev = neighbor_symbols(symbols.drop_last(), calls, name);
    if k < prev.len() {
        lemma_neighbor_symbols_members(symbols.drop_last(), calls, name, k);
    }
}

proof fn lemma_neighbor_symbols_contains(symbols: Seq<Symbol>, calls: Seq<DirectCall>, name: Seq<char>, m: int)
    requires
        0 <= m < symbols.len(),
        neighbor_symbol(calls, name, symbols[m]),
    ensures
        neighbor_symbols(symbols, calls, name).contains(symbols[m]),
    decreases symbols.len(),
{
    let prev = neighbor_symbols(symbols.drop_last(), calls, name);
    if m == symbols.len() - 1 {
        assert(neighbor_symbols(symbols, calls, name)[prev.len() as int] == symbols[m]);
    } else {
        assert(symbols.drop_last()[m] == symbols[m]);
        lemma_neighbor_symbols_contains(symbols.drop_last(), calls, name, m);
        let k = choose|k: int| 0 <= k < prev.len() && prev[k] == symbols[m];
        assert(neighbor_symbols(symbols, calls, name)[k] == symbols[m]);
    }
}

proof fn lemma_neighbor_count_le(symbols: Seq<Symbol>, calls: Seq<DirectCall>, name: Seq<char>, x: Seq<char>)
    ensures
        callable_count(neighbor_symbols(symbols, calls, name), x) <= callable_count(symbols, x),
    decreases symbols.len(),
{
    if symbols.len() > 0 {
        let prev = neighbor_symbols(symbols.drop_last(), calls, name);
        lemma_neighbor_count_le(symbols.drop_last(), calls, name, x);
        if neighbor_symbol(calls, name, symbols.last()) {
            assert(prev.push(symbols.last()).drop_last() =~= prev);
        }
    }
}

proof fn lemma_count_positive(s: Seq<Symbol>, x: Seq<char>, i: int)
    requires
        0 <= i < s.len(),
        callable_kind(s[i].kind),
        s[i].name@ == x,
    ensures
        callable_count(s, x) >= 1,
    decreases s.len(),
{
    if i < s.len() - 1 {
        assert(s.drop_last()[i] == s[i]);
        lemma_count_positive(s.drop_last(), x, i);
    }
}

proof fn lemma_count_two(s: Seq<Symbol>, x: Seq<char>, i: int, j: int)
    requires
        0 <= i < j < s.len(),
        callable_kind(s[i].kind),
        s[i].name@ == x,
        callable_kind(s[j].kind),
        s[j].name@ == x,
    ensures
        callable_count(s, x) >= 2,
    decreases s.len(),
{
    assert(s.drop_last()[i] == s[i]);
    if j == s.len() - 1 {
        lemma_count_positive(s.drop_last(), x, i);
    } else {
        assert(s.drop_last()[j] == s[j]);
        lemma_count_two(s.drop_last(), x, i, j);
    }
}

proof fn lemma_count_witness(s: Seq<Symbol>, x: Seq<char>) -> (m: int)
    requires
        callable_count(s, x) >= 1,
    ensures
        0 <= m < s.len(),
        callable_kind(s[m].kind),
        s[m].name@ == x,
    decreases s.len(),
{
    if callable_kind(s.last().kind) && s.last().name@ == x {
        s.len() - 1
    } else {
        let m = lemma_count_witness(s.drop_last(), x);
        assert(s.drop_last()[m] == s[m]);
        m
    }
}

proof fn lemma_partner_counted(calls: Seq<DirectCall>, symbols: Seq<Symbol>, name: Seq<char>, other: Seq<char>)
    requires
        forall|k: int|
            0 <= k < calls.len() ==> callable_count(symbols, #[trigger] calls[k].caller@) == 1
                && callable_count(symbols, calls[k].callee@) == 1,
        is_neighbor(calls, name, other),
    ensures
        callable_count(symbols, other) == 1,
{
    let k = choose|k: int| 0 <= k < calls.len() && #[trigger] call_neighbor(calls[k], name) == Some(other);
    assert(callable_count(symbols, calls[k].caller@) == 1);
}

proof fn lemma_partner_listed(symbols: Seq<Symbol>, calls: Seq<DirectCall>, name: Seq<char>, other: Seq<char>)
    requires
        forall|k: int|
            0 <= k < calls.len() ==> callable_count(symbols, #[trigger] calls[k].caller@) == 1
                && callable_count(symbols, calls[k].callee@) == 1,
        is_neighbor(calls, name, other),
    ensures
        exists|k: int|
            0 <= k < neighbor_symbols(symbols, calls, name).len() && #[trigger] neighbor_symbols(
                symbols,
                calls,
                name,
            )[k].name@ == other,
{
    let ns = neighbor_symbols(symbols, calls, name);
    lemma_partner_counted(calls, symbols, name, other);
    let m = lemma_count_witness(symbols, other);
    lemma_neighbor_symbols_contains(symbols, calls, name, m);
    let k = choose|k: int| 0 <= k < ns.len() && ns[k] == symbols[m];
    assert(ns[k].name@ == other);
}

/// When each call's caller and callee name exactly one function or method
/// (as in an assembled map), every call partner of `name` gives exactly one
/// neighbour symbol: no two neighbours share a name, and the neighbours'
/// names are the call partners.
pub proof fn law_each_call_partner_gives_one_neighbor(
    symbols: Seq<Symbol>,
    calls: Seq<DirectCall>,
    name: Seq<char>,
)
    requires
        forall|k: int|
            0 <= k < calls.len() ==> callable_count(symbols, #[trigger] calls[k].caller@) == 1
                && callable_count(symbols, calls[k].callee@) == 1,
    ensures
        forall|i: int, j: int|
            0 <= i < j < neighbor_symbols(symbols, calls, name).len() ==> #[trigger] neighbor_symbols(
                symbols,
                calls,
                name,
            )[i].name@ != #[trigger] neighbor_symbols(symbols, calls, name)[j].name@,
        forall|other: Seq<char>|
            #[trigger] is_neighbor(calls, name, other) <==> exists|k: int|
                0 <= k < neighbor_symbols(symbols, calls, name).len() && #[trigger] neighbor_symbols(
                    symbols,
                    calls,
                    name,
                )[k].name@ == other,
{
    let ns = neighbor_symbols(symbols, calls, name);
    assert forall|i: int, j: int| 0 <= i < j < ns.len() implies #[trigger] ns[i].name@ != #[trigger] ns[j].name@ by {
        lemma_neighbor_symbols_members(symbols, calls, name, i);
        lemma_neighbor_symbols_members(symbols, calls, name, j);
        if ns[i].name@ == ns[j].name@ {
            let x = ns[i].name@;
            lemma_count_two(ns, x, i, j);
            lemma_neighbor_count_le(symbols, calls, name, x);
            lemma_partner_counted(calls, symbols, name, x);
        }
    }
    assert forall|other: Seq<char>| #[trigger] is_neighbor(calls, name, other) <==> exists|k: int|
        0 <= k < ns.len() && #[trigger] ns[k].name@ == other by {
        if is_neighbor(calls, name, other) {
            lemma_partner_listed(symbols, calls, name, other);
        }
        if exists|k: int| 0 <= k < ns.len() && #[trigger] ns[k].name@ == other {
            let k = choose|k: int| 0 <= k < ns.len() && #[trigger] ns[k].name@ == other;
            lemma_neighbor_symbols_members(symbols, calls, name, k);
        }
    }
}

/// The calls an assembled map keeps name exactly one function or method at
/// each end, as [`law_each_call_partner_gives_one_neighbor`] asks.
pub proof fn lemma_kept_calls_named_once(calls: Seq<DirectCall>, symbols: Seq<Symbol>)
    ensures
        forall|k: int|
            0 <= k < unambiguous_calls(calls, symbols).len() ==> callable_count(
                symbols,
                #[trigger] unambiguous_calls(calls, symbols)[k].caller@,
            ) == 1 && callable_count(symbols, unambiguous_calls(calls, symbols)[k].callee@) == 1,
    decreases calls.len(),
{
    if calls.len() > 0 {
        lemma_kept_calls_named_once(calls.drop_last(), symbols);
        let prev = unambiguous_calls(calls.drop_last(), symbols);
        assert forall|k: int| 0 <= k < unambiguous_calls(calls, symbols).len() implies callable_count(
            symbols,
            #[trigger] unambiguous_calls(calls, symbols)[k].caller@,
        ) == 1 && callable_count(symbols, unambiguous_calls(calls, symbols)[k].callee@) == 1 by {
            if k < prev.len() {
                assert(unambiguous_calls(calls, symbols)[k] == prev[k]);
            }
        }
    }
}

proof fn lemma_same_partners(c1: Seq<DirectCall>, c2: Seq<DirectCall>, name: Seq<char>, other: Seq<char>)
    requires
        c1.to_multiset() == c2.to_multiset(),
        is_neighbor(c1, name, other),
    ensures
        is_neighbor(c2, name, other),
{
    let i = choose|i: int| 0 <= i < c1.len() && #[trigger] call_neighbor(c1[i], name) == Some(other);
    vstd::seq_lib::to_multiset_contains(c1, c1[i]);
    vstd::seq_lib::to_multiset_contains(c2, c1[i]);
    assert(c1.contains(c1[i]));
    let j = choose|j: int| 0 <= j < c2.len() && c2[j] == c1[i];
    assert(call_neighbor(c2[j], name) == Some(other));
}

proof fn lemma_neighbor_symbols_calls(symbols: Seq<Symbol>, c1: Seq<DirectCall>, c2: Seq<DirectCall>, name: Seq<char>)
    requires
        c1.to_multiset() == c2.to_multiset(),
    ensures
        neighbor_symbols(symbols, c1, name) == neighbor_symbols(symbols, c2, name),
    decreases symbols.len(),
{
    if symbols.len() > 0 {
        lemma_neighbor_symbols_calls(symbols.drop_last(), c1, c2, name);
        let x = symbols.last().name@;
        if is_neighbor(c1, name, x) {
            lemma_same_partners(c1, c2, name, x);
        }
        if is_neighbor(c2, name, x) {
            lemma_same_partners(c2, c1, name, x);
        }
    }
}

proof fn lemma_neighbor_symbols_count(symbols: Seq<Symbol>, calls: Seq<DirectCall>, name: Seq<char>, s: Symbol)
    ensures
        neighbor_symbols(symbols, calls, name).to_multiset().count(s) == if neighbor_symbol(calls, name, s) {
            symbols.to_multiset().count(s)
        } else {
            0
        },
    decreases symbols.len(),
{
    broadcast use vstd::seq_lib::group_to_multiset_ensures;

    if symbols.len() == 0 {
        assert(neighbor_symbols(symbols, calls, name) =~= Seq::<Symbol>::empty());
    } else {
        lemma_neighbor_symbols_count(symbols.drop_last(), calls, name, s);
        assert(symbols.drop_last().push(symbols.last()) =~= symbols);
    }
}

/// The neighbours do not depend on the order of the map's symbols or
/// calls: maps whose symbols and calls are the same up to order give the
/// same neighbour symbols, up to order (and the result is sorted).
pub proof fn law_neighbors_ignore_map_order(
    s1: Seq<Symbol>,
    s2: Seq<Symbol>,
    c1: Seq<DirectCall>,
    c2: Seq<DirectCall>,
    name: Seq<char>,
)
    requires
        s1.to_multiset() == s2.to_multiset(),
        c1.to_multiset() == c2.to_multiset(),
    ensures
        neighbor_symbols(s1, c1, name).to_multiset() == neighbor_symbols(s2, c2, name).to_multiset(),
{
    lemma_neighbor_symbols_calls(s2, c2, c1, name);
    assert forall|s: Symbol| #[trigger] neighbor_symbols(s1, c1, name).to_multiset().count(s)
        == neighbor_symbols(s2, c1, name).to_multiset().count(s) by {
        lemma_neighbor_symbols_count(s1, c1, name, s);
        lemma_neighbor_symbols_count(s2, c1, name, s);
    }
    assert(neighbor_symbols(s1, c1, name).to_multiset() =~= neighbor_symbols(s2, c1, name).to_multiset());
}

proof fn lemma_neighbor_symbols_from(symbols: Seq<Symbol>, calls: Seq<DirectCall>, name: Seq<char>, k: int)
    requires
        0 <= k < neighbor_symbols(symbols, calls, name).len(),
    ensures
        symbols.contains(neighbor_symbols(symbols, calls, name)[k]),
    decreases symbols.len(),
{
    let prev = neighbor_symbols(symbols.drop_last(), calls, name);
    if k < prev.len() {
        lemma_neighbor_symbols_from(symbols.drop_last(), calls, name, k);
        let m = choose|m: int| 0 <= m < symbols.drop_last().len() && symbols.drop_last()[m] == prev[k];
        assert(symbols[m] == prev[k]);
    } else {
        assert(symbols[symbols.len() - 1] == symbols.last());
    }
}

proof fn lemma_callable_count_remove(s: Seq<Symbol>, i: int, x: Seq<char>)
    requires
        0 <= i < s.len(),
    ensures
        callable_count(s, x) == callable_count(s.remove(i), x) + if callable_kind(s[i].kind) && s[i].name@
            == x {
            1nat
        } else {
            0nat
        },
    decreases s.len(),
{
    if i == s.len() - 1 {
        assert(s.remove(i) =~= s.drop_last());
    } else {
        lemma_callable_count_remove(s.drop_last(), i, x);
        assert(s.remove(i).drop_last() =~= s.drop_last().remove(i));
        assert(s.remove(i).last() == s.last());
        assert(s.drop_last()[i] == s[i]);
    }
}

proof fn lemma_callable_count_permuted(s1: Seq<Symbol>, s2: Seq<Symbol>, x: Seq<char>)
    requires
        s1.to_multiset() == s2.to_multiset(),
    ensures
        callable_count(s1, x) == callable_count(s2, x),
    decreases s1.len(),
{
    broadcast use vstd::seq_lib::group_to_multiset_ensures;

    assert(s1.len() == s1.to_multiset().len());
    assert(s2.len() == s2.to_multiset().len());
    if s1.len() > 0 {
        let a = s1.last();
        assert(s1[s1.len() - 1] == a);
        assert(s1.contains(a));
        assert(s1.to_multiset().count(a) > 0);
        assert(s2.to_multiset().count(a) > 0);
        assert(s2.contains(a));
        let j = choose|j: int| 0 <= j < s2.len() && s2[j] == a;
        assert(s1 =~= s1.drop_last().push(a));
        let m = s1.drop_last().to_multiset();
        assert(s2.remove(j).to_multiset() =~= s2.to_multiset().remove(a));
        assert(m =~= m.insert(a).remove(a));
        lemma_callable_count_permuted(s1.drop_last(), s2.remove(j), x);
        lemma_callable_count_remove(s2, j, x);
    }
}

proof fn lemma_repeated_counts_twice(s: Seq<Symbol>, i: int, j: int)
    requires
        0 <= i < j < s.len(),
        s[i] == s[j],
    ensures
        s.to_multiset().count(s[i]) >= 2,
    decreases s.len(),
{
    broadcast use vstd::seq_lib::group_to_multiset_ensures;

    assert(s =~= s.drop_last().push(s.last()));
    if j == s.len() - 1 {
        assert(s.drop_last()[i] == s[i]);
        assert(s.drop_last().contains(s[i]));
    } else {
        assert(s.drop_last()[i] == s[i] && s.drop_last()[j] == s[j]);
        lemma_repeated_counts_twice(s.drop_last(), i, j);
    }
}

proof fn lemma_twice_counted_repeats(s: Seq<Symbol>, v: Symbol) -> (pq: (int, int))
    requires
        s.to_multiset().count(v) >= 2,
    ensures
        0 <= pq.0 < pq.1 < s.len(),
        s[pq.0] == v,
        s[pq.1] == v,
    decreases s.len(),
{
    broadcast use vstd::seq_lib::group_to_multiset_ensures;

    if s.len() == 0 {
        assert(s.to_multiset() =~= vstd::multiset::Multiset::<Symbol>::empty());
        (0, 0)
    } else {
        assert(s =~= s.drop_last().push(s.last()));
        if s.last() == v {
            assert(s.drop_last().to_multiset().count(v) >= 1);
            assert(s.drop_last().contains(v));
            let p = choose|p: int| 0 <= p < s.drop_last().len() && s.drop_last()[p] == v;
            assert(s[p] == v);
            (p, s.len() - 1)
        } else {
            let (p, q) = lemma_twice_counted_repeats(s.drop_last(), v);
            assert(s[p] == v && s[q] == v);
            (p, q)
        }
    }
}

/// Sorted by name, path and line, the neighbours of a map whose symbols
/// and calls are the same up to order are the same list, when no two
/// different symbols share a name, path and line.
pub proof fn law_sorted_neighbors_ignore_map_order(
    s1: Seq<Symbol>,
    s2: Seq<Symbol>,
    c1: Seq<DirectCall>,
    c2: Seq<DirectCall>,
    name: Seq<char>,
    r1: Seq<Symbol>,
    r2: Seq<Symbol>,
)
    requires
        s1.to_multiset() == s2.to_multiset(),
        c1.to_multiset() == c2.to_multiset(),
        forall|i: int, j: int|
            0 <= i < s1.len() && 0 <= j < s1.len() && #[trigger] s1[i].name@ == #[trigger] s1[j].name@
                && s1[i].path@ == s1[j].path@ && s1[i].line == s1[j].line ==> s1[i] == s1[j],
        sorted::<ByNamePathLine, Symbol>(r1),
        sorted::<ByNamePathLine, Symbol>(r2),
        r1.to_multiset() == neighbor_symbols(s1, c1, name).to_multiset(),
        r2.to_multiset() == neighbor_symbols(s2, c2, name).to_multiset(),
    ensures
        r1 == r2,
{
    broadcast use vstd::seq_lib::group_to_multiset_ensures;

    law_neighbors_ignore_map_order(s1, s2, c1, c2, name);
    let ns = neighbor_symbols(s1, c1, name);
    assert forall|x: Symbol, y: Symbol|
        r1.contains(x) && r1.contains(y) && #[trigger] <Symbol as SortKey<ByNamePathLine>>::key_le(&x, &y)
            && #[trigger] <Symbol as SortKey<ByNamePathLine>>::key_le(&y, &x) implies x == y by {
        assert(r1.to_multiset().count(x) > 0 && r1.to_multiset().count(y) > 0);
        assert(ns.contains(x) && ns.contains(y));
        let p = choose|p: int| 0 <= p < ns.len() && ns[p] == x;
        let q = choose|q: int| 0 <= q < ns.len() && ns[q] == y;
        lemma_neighbor_symbols_from(s1, c1, name, p);
        lemma_neighbor_symbols_from(s1, c1, name, q);
        let i = choose|i: int| 0 <= i < s1.len() && s1[i] == x;
        let j = choose|j: int| 0 <= j < s1.len() && s1[j] == y;
        lemma_seq_order_facts(x.name@, y.name@, y.name@);
        lemma_seq_order_facts(x.path@, y.path@, y.path@);
        assert(s1[i].name@ == s1[j].name@);
    }
    lemma_sorted_same_elements_equal::<ByNamePathLine, Symbol>(r1, r2);
}

/// In a map assembled from a repository, whose symbols are the files'
/// symbols and whose calls are the calls naming exactly one function or
/// method at each end (in any order), every call partner of `name` gives
/// exactly one neighbour in any list of its neighbours: no two share a
/// name, and their names are the call partners.
pub proof fn law_assembled_neighbors_one_per_partner(
    file_symbols: Seq<Symbol>,
    file_calls: Seq<DirectCall>,
    symbols: Seq<Symbol>,
    calls: Seq<DirectCall>,
    name: Seq<char>,
    neighbors: Seq<Symbol>,
)
    requires
        symbols.to_multiset() == file_symbols.to_multiset(),
        calls.to_multiset() == unambiguous_calls(file_calls, file_symbols).to_multiset(),
        neighbors.to_multiset() == neighbor_symbols(symbols, calls, name).to_multiset(),
    ensures
        forall|i: int, j: int|
            0 <= i < j < neighbors.len() ==> #[trigger] neighbors[i].name@ != #[trigger] neighbors[j].name@,
        forall|other: Seq<char>|
            #[trigger] is_neighbor(calls, name, other) <==> exists|k: int|
                0 <= k < neighbors.len() && #[trigger] neighbors[k].name@ == other,
{
    broadcast use vstd::seq_lib::group_to_multiset_ensures;

    let kept = unambiguous_calls(file_calls, file_symbols);
    lemma_kept_calls_named_once(file_calls, file_symbols);
    assert forall|k: int| 0 <= k < calls.len() implies callable_count(symbols, #[trigger] calls[k].caller@) == 1
        && callable_count(symbols, calls[k].callee@) == 1 by {
        assert(calls.contains(calls[k]));
        assert(calls.to_multiset().count(calls[k]) > 0);
        assert(kept.to_multiset().count(calls[k]) > 0);
        assert(kept.contains(calls[k]));
        let m = choose|m: int| 0 <= m < kept.len() && kept[m] == calls[k];
        assert(callable_count(file_symbols, kept[m].caller@) == 1);
        lemma_callable_count_permuted(symbols, file_symbols, calls[k].caller@);
        lemma_callable_count_permuted(symbols, file_symbols, calls[k].callee@);
    }
    law_each_call_partner_gives_one_neighbor(symbols, calls, name);
    let ns = neighbor_symbols(symbols, calls, name);
    assert forall|i: int, j: int| 0 <= i < j < neighbors.len() implies #[trigger] neighbors[i].name@
        != #[trigger] neighbors[j].name@ by {
        if neighbors[i].name@ == neighbors[j].name@ {
            if neighbors[i] == neighbors[j] {
                lemma_repeated_counts_twice(neighbors, i, j);
                let (p, q) = lemma_twice_counted_repeats(ns, neighbors[i]);
                assert(ns[p].name@ == ns[q].name@);
            } else {
                assert(neighbors.contains(neighbors[i]) && neighbors.contains(neighbors[j]));
                assert(neighbors.to_multiset().count(neighbors[i]) > 0);
                assert(neighbors.to_multiset().count(neighbors[j]) > 0);
                assert(ns.contains(neighbors[i]) && ns.contains(neighbors[j]));
                let p = choose|p: int| 0 <= p < ns.len() && ns[p] == neighbors[i];
                let q = choose|q: int| 0 <= q < ns.len() && ns[q] == neighbors[j];
                if p < q {
                    assert(ns[p].name@ != ns[q].name@);
                } else {
                    assert(ns[q].name@ != ns[p].name@);
                }
            }
        }
    }
    assert forall|other: Seq<char>| #[trigger] is_neighbor(calls, name, other) <==> exists|k: int|
        0 <= k < neighbors.len() && #[trigger] neighbors[k].name@ == other by {
        if is_neighbor(calls, name, other) {
            let k = choose|k: int| 0 <= k < ns.len() && #[trigger] ns[k].name@ == other;
            assert(ns.contains(ns[k]));
            assert(neighbors.to_multiset().count(ns[k]) > 0);
            assert(neighbors.contains(ns[k]));
            let m = choose|m: int| 0 <= m < neighbors.len() && neighbors[m] == ns[k];
            assert(neighbors[m].name@ == other);
        }
        if exists|k: int| 0 <= k < neighbors.len() && #[trigger] neighbors[k].name@ == other {
            let k = choose|k: int| 0 <= k < neighbors.len() && #[trigger] neighbors[k].name@ == other;
            assert(neighbors.contains(neighbors[k]));
            assert(ns.to_multiset().count(neighbors[k]) > 0);
            assert(ns.contains(neighbors[k]));
            let m = choose|m: int| 0 <= m < ns.len() && ns[m] == neighbors[k];
            assert(ns[m].name@ == other);
        }
    }
}

} // verus!
