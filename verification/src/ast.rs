//! The syntax tree that the parser builds: expressions and statements with
//! their source locations and type annotations, the type identifiers of the
//! primitive types, and the table of type names the parser resolves.
use vstd::prelude::*;
use crate::location::Location;
use crate::text::string_from;

verus! {

/// Identifier of a type.
#[derive(Debug, Clone, Copy, PartialEq, Eq, Structural)]
pub struct TypeId(pub usize);

/// The primitive types of the language.
#[derive(Debug, Clone, Copy, PartialEq, Eq, Structural)]
pub enum PrimitiveType {
    I32,
    I64,
    U32,
    U64,
    F32,
    F64,
    Bool,
    String,
    UnspecifiedInt,
    UnspecifiedFloat,
    Unknown,
    Unit,
}

impl PrimitiveType {
    /// The identifier of the primitive type: its place in the list of
    /// primitive types, counted from 0.
    pub open spec fn spec_type_id(self) -> TypeId {
        TypeId(
            match self {
                PrimitiveType::I32 => 0,
                PrimitiveType::I64 => 1,
                PrimitiveType::U32 => 2,
                PrimitiveType::U64 => 3,
                PrimitiveType::F32 => 4,
                PrimitiveType::F64 => 5,
                PrimitiveType::Bool => 6,
                PrimitiveType::String => 7,
                PrimitiveType::UnspecifiedInt => 8,
                PrimitiveType::UnspecifiedFloat => 9,
                PrimitiveType::Unknown => 10,
                PrimitiveType::Unit => 11,
            },
        )
    }

    /// Returns the identifier of the primitive type.
    #[verifier::when_used_as_spec(spec_type_id)]
    pub fn type_id(self) -> (t: TypeId)
        ensures
            t == self.spec_type_id(),
    {
        TypeId(
            match self {
                PrimitiveType::I32 => 0,
                PrimitiveType::I64 => 1,
                PrimitiveType::U32 => 2,
                PrimitiveType::U64 => 3,
                PrimitiveType::F32 => 4,
                PrimitiveType::F64 => 5,
                PrimitiveType::Bool => 6,
                PrimitiveType::String => 7,
                PrimitiveType::UnspecifiedInt => 8,
                PrimitiveType::UnspecifiedFloat => 9,
                PrimitiveType::Unknown => 10,
                PrimitiveType::Unit => 11,
            },
        )
    }

    /// The name of the primitive type in source code.
    pub open spec fn spec_name(self) -> Seq<char> {
        match self {
            PrimitiveType::I32 => "i32"@,
            PrimitiveType::I64 => "i64"@,
            PrimitiveType::U32 => "u32"@,
            PrimitiveType::U64 => "u64"@,
            PrimitiveType::F32 => "f32"@,
            PrimitiveType::F64 => "f64"@,
            PrimitiveType::Bool => "bool"@,
            PrimitiveType::String => "string"@,
            PrimitiveType::UnspecifiedInt => "int"@,
            PrimitiveType::UnspecifiedFloat => "float"@,
            PrimitiveType::Unknown => "unknown"@,
            PrimitiveType::Unit => "()"@,
        }
    }

    /// Returns the name of the primitive type in source code.
    pub fn name(self) -> (s: &'static str)
        ensures
            s@ == self.spec_name(),
    {
        match self {
            PrimitiveType::I32 => "i32",
            PrimitiveType::I64 => "i64",
            PrimitiveType::U32 => "u32",
            PrimitiveType::U64 => "u64",
            PrimitiveType::F32 => "f32",
            PrimitiveType::F64 => "f64",
            PrimitiveType::Bool => "bool",
            PrimitiveType::String => "string",
            PrimitiveType::UnspecifiedInt => "int",
            PrimitiveType::UnspecifiedFloat => "float",
            PrimitiveType::Unknown => "unknown",
            PrimitiveType::Unit => "()",
        }
    }
}

/// The kind of a named symbol.
#[derive(Debug, Clone, Copy, PartialEq, Eq, Structural)]
pub enum SymbolKind {
    Type,
    Variable,
    Function,
}

/// A named symbol: its name, kind and type.
#[derive(Debug)]
pub struct Symbol {
    pub name: String,
    pub kind: SymbolKind,
    pub type_id: TypeId,
}

/// The mathematical content of a symbol.
pub struct SpecSymbol {
    pub name: Seq<char>,
    pub kind: SymbolKind,
    pub type_id: TypeId,
}

impl View for Symbol {
    type V = SpecSymbol;

    open spec fn view(&self) -> SpecSymbol {
        SpecSymbol { name: self.name@, kind: self.kind, type_id: self.type_id }
    }
}

/// The symbols known when parsing, in the order in which they were
/// defined; a name refers to the first symbol defined with it.
pub struct SymbolTable {
    symbols: Vec<Symbol>,
}

/// The first symbol named `name`, if any.
pub open spec fn lookup_in(symbols: Seq<SpecSymbol>, name: Seq<char>) -> Option<SpecSymbol>
    decreases symbols.len(),
{
    if symbols.len() == 0 {
        None
    } else {
        match lookup_in(symbols.drop_last(), name) {
            Some(s) => Some(s),
            None => if symbols.last().name == name {
                Some(symbols.last())
            } else {
                None
            },
        }
    }
}

/// The type a name refers to, if it names a type.
pub open spec fn type_named(symbols: Seq<SpecSymbol>, name: Seq<char>) -> Option<TypeId> {
    match lookup_in(symbols, name) {
        Some(s) => if s.kind == SymbolKind::Type {
            Some(s.type_id)
        } else {
            None
        },
        None => None,
    }
}

/// The name under which type `id` is known: the name of the first type
/// symbol for it, or `unknown` when there is none.
pub open spec fn name_of_type_in(symbols: Seq<SpecSymbol>, id: TypeId) -> Seq<char>
    decreases symbols.len(),
{
    if symbols.len() == 0 {
        "unknown"@
    } else {
        let earlier = symbols.drop_last();
        if exists|i: int| 0 <= i < earlier.len() && #[trigger] earlier[i].kind == SymbolKind::Type && earlier[i].type_id == id {
            name_of_type_in(earlier, id)
        } else if symbols.last().kind == SymbolKind::Type && symbols.last().type_id == id {
            symbols.last().name
        } else {
            "unknown"@
        }
    }
}

impl View for SymbolTable {
    type V = Seq<SpecSymbol>;

    closed spec fn view(&self) -> Seq<SpecSymbol> {
        self.symbols@.map_values(|s: Symbol| s@)
    }
}

impl SymbolTable {
    /// An empty table.
    pub fn new() -> (t: SymbolTable)
        ensures
            t@ == Seq::<SpecSymbol>::empty(),
    {
        let t = SymbolTable { symbols: Vec::new() };
        assert(t@ =~= Seq::<SpecSymbol>::empty());
        t
    }

    /// Adds a symbol after those already defined.
    pub fn define(&mut self, name: &str, kind: SymbolKind, type_id: TypeId)
        ensures
            final(self)@ == old(self)@.push(SpecSymbol { name: name@, kind, type_id }),
    {
        let ghost before = self@;
        self.symbols.push(Symbol { name: string_from(name), kind, type_id });
        assert(self@ =~= before.push(SpecSymbol { name: name@, kind, type_id }));
    }

    /// A table that holds the primitive types under their names, except the
    /// placeholder types of literals without suffix and of the unit type.
    pub fn with_primitive_types() -> (t: SymbolTable)
        ensures
            t@ == seq![
                SpecSymbol { name: "i32"@, kind: SymbolKind::Type, type_id: PrimitiveType::I32.spec_type_id() },
                SpecSymbol { name: "i64"@, kind: SymbolKind::Type, type_id: PrimitiveType::I64.spec_type_id() },
                SpecSymbol { name: "u32"@, kind: SymbolKind::Type, type_id: PrimitiveType::U32.spec_type_id() },
                SpecSymbol { name: "u64"@, kind: SymbolKind::Type, type_id: PrimitiveType::U64.spec_type_id() },
                SpecSymbol { name: "f32"@, kind: SymbolKind::Type, type_id: PrimitiveType::F32.spec_type_id() },
                SpecSymbol { name: "f64"@, kind: SymbolKind::Type, type_id: PrimitiveType::F64.spec_type_id() },
                SpecSymbol { name: "bool"@, kind: SymbolKind::Type, type_id: PrimitiveType::Bool.spec_type_id() },
                SpecSymbol { name: "string"@, kind: SymbolKind::Type, type_id: PrimitiveType::String.spec_type_id() },
                SpecSymbol { name: "unknown"@, kind: SymbolKind::Type, type_id: PrimitiveType::Unknown.spec_type_id() },
            ],
    {
        let mut t = SymbolTable::new();
        t.define(PrimitiveType::I32.name(), SymbolKind::Type, PrimitiveType::I32.type_id());
        t.define(PrimitiveType::I64.name(), SymbolKind::Type, PrimitiveType::I64.type_id());
        t.define(PrimitiveType::U32.name(), SymbolKind::Type, PrimitiveType::U32.type_id());
        t.define(PrimitiveType::U64.name(), SymbolKind::Type, PrimitiveType::U64.type_id());
        t.define(PrimitiveType::F32.name(), SymbolKind::Type, PrimitiveType::F32.type_id());
        t.define(PrimitiveType::F64.name(), SymbolKind::Type, PrimitiveType::F64.type_id());
        t.define(PrimitiveType::Bool.name(), SymbolKind::Type, PrimitiveType::Bool.type_id());
        t.define(PrimitiveType::String.name(), SymbolKind::Type, PrimitiveType::String.type_id());
        t.define(PrimitiveType::Unknown.name(), SymbolKind::Type, PrimitiveType::Unknown.type_id());
        assert(t@ =~= seq![
            SpecSymbol { name: "i32"@, kind: SymbolKind::Type, type_id: PrimitiveType::I32.spec_type_id() },
            SpecSymbol { name: "i64"@, kind: SymbolKind::Type, type_id: PrimitiveType::I64.spec_type_id() },
            SpecSymbol { name: "u32"@, kind: SymbolKind::Type, type_id: PrimitiveType::U32.spec_type_id() },
            SpecSymbol { name: "u64"@, kind: SymbolKind::Type, type_id: PrimitiveType::U64.spec_type_id() },
            SpecSymbol { name: "f32"@, kind: SymbolKind::Type, type_id: PrimitiveType::F32.spec_type_id() },
            SpecSymbol { name: "f64"@, kind: SymbolKind::Type, type_id: PrimitiveType::F64.spec_type_id() },
            SpecSymbol { name: "bool"@, kind: SymbolKind::Type, type_id: PrimitiveType::Bool.spec_type_id() },
            SpecSymbol { name: "string"@, kind: SymbolKind::Type, type_id: PrimitiveType::String.spec_type_id() },
            SpecSymbol { name: "unknown"@, kind: SymbolKind::Type, type_id: PrimitiveType::Unknown.spec_type_id() },
        ]);
        t
    }

    /// The first symbol named `name`, as its kind and type, if any.
    pub fn lookup(&self, name: &str) -> (r: Option<(SymbolKind, TypeId)>)
        ensures
            match lookup_in(self@, name@) {
                Some(s) => r == Some((s.kind, s.type_id)),
                None => r is None,
            },
    {
        let mut i: usize = 0;
        while i < self.symbols.len()
            invariant
                i <= self.symbols@.len(),
                self@ == self.symbols@.map_values(|s: Symbol| s@),
                lookup_in(self@.take(i as int), name@) is None,
            decreases self.symbols@.len() - i,
        {
            proof {
                assert(self@.take(i + 1).drop_last() =~= self@.take(i as int));
            }
            if crate::text::str_eq(self.symbols[i].name.as_str(), name) {
                proof {
                    lemma_lookup_prefix(self@, name@, i as int + 1);
                }
                return Some((self.symbols[i].kind, self.symbols[i].type_id));
            }
            i = i + 1;
        }
        assert(self@.take(self@.len() as int) =~= self@);
        None
    }

    /// The name under which type `id` is known: the name of the first type
    /// symbol for it, or `unknown` when there is none.
    pub fn name_of_type(&self, id: TypeId) -> (s: String)
        ensures
            s@ == name_of_type_in(self@, id),
    {
        let mut i: usize = 0;
        while i < self.symbols.len()
            invariant
                i <= self.symbols@.len(),
                self@ == self.symbols@.map_values(|s: Symbol| s@),
                forall|k: int| 0 <= k < i ==> !(#[trigger] self@[k].kind == SymbolKind::Type && self@[k].type_id == id),
            decreases self.symbols@.len() - i,
        {
            if self.symbols[i].kind == SymbolKind::Type && self.symbols[i].type_id == id {
                proof {
                    lemma_name_of_type_first(self@, id, i as int);
                }
                return self.symbols[i].name.clone();
            }
            i = i + 1;
        }
        proof {
            lemma_name_of_type_absent(self@, id);
        }
        string_from("unknown")
    }

    /// The type a name refers to, if it names a type.
    pub fn type_named(&self, name: &str) -> (r: Option<TypeId>)
        ensures
            r == type_named(self@, name@),
    {
        match self.lookup(name) {
            Some((kind, type_id)) => if kind == SymbolKind::Type {
                Some(type_id)
            } else {
                None
            },
            None => None,
        }
    }
}

/// The name of a type is that of its first type symbol.
proof fn lemma_name_of_type_first(symbols: Seq<SpecSymbol>, id: TypeId, i: int)
    requires
        0 <= i < symbols.len(),
        symbols[i].kind == SymbolKind::Type && symbols[i].type_id == id,
        forall|k: int| 0 <= k < i ==> !(#[trigger] symbols[k].kind == SymbolKind::Type && symbols[k].type_id == id),
    ensures
        name_of_type_in(symbols, id) == symbols[i].name,
    decreases symbols.len(),
{
    let earlier = symbols.drop_last();
    if i < symbols.len() - 1 {
        assert(earlier[i] == symbols[i]);
        assert forall|k: int| 0 <= k < i implies !(#[trigger] earlier[k].kind == SymbolKind::Type && earlier[k].type_id == id) by {
            assert(earlier[k] == symbols[k]);
        }
        lemma_name_of_type_first(earlier, id, i);
    } else {
        if exists|k: int| 0 <= k < earlier.len() && #[trigger] earlier[k].kind == SymbolKind::Type && earlier[k].type_id == id {
            let k = choose|k: int| 0 <= k < earlier.len() && #[trigger] earlier[k].kind == SymbolKind::Type && earlier[k].type_id == id;
            assert(symbols[k] == earlier[k]);
        }
    }
}

/// A type without a type symbol is named `unknown`.
proof fn lemma_name_of_type_absent(symbols: Seq<SpecSymbol>, id: TypeId)
    requires
        forall|k: int| 0 <= k < symbols.len() ==> !(#[trigger] symbols[k].kind == SymbolKind::Type && symbols[k].type_id == id),
    ensures
        name_of_type_in(symbols, id) == "unknown"@,
    decreases symbols.len(),
{
    if symbols.len() > 0 {
        let earlier = symbols.drop_last();
        if exists|k: int| 0 <= k < earlier.len() && #[trigger] earlier[k].kind == SymbolKind::Type && earlier[k].type_id == id {
            let k = choose|k: int| 0 <= k < earlier.len() && #[trigger] earlier[k].kind == SymbolKind::Type && earlier[k].type_id == id;
            assert(symbols[k] == earlier[k]);
        }
    }
}

/// The first symbol with a name, found in a prefix, is the first in the
/// whole table.
proof fn lemma_lookup_prefix(symbols: Seq<SpecSymbol>, name: Seq<char>, k: int)
    requires
        0 <= k <= symbols.len(),
        lookup_in(symbols.take(k), name) is Some,
    ensures
        lookup_in(symbols, name) == lookup_in(symbols.take(k), name),
    decreases symbols.len() - k,
{
    if k < symbols.len() {
        assert(symbols.take(k + 1).drop_last() =~= symbols.take(k));
        lemma_lookup_prefix(symbols, name, k + 1);
    } else {
        assert(symbols.take(k) =~= symbols);
    }
}

} // verus!
