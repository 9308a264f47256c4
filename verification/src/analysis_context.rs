//! The state that semantic analysis works in: nested scopes of named
//! symbols, and the registry of the types beyond the primitive ones
//! (function types and struct types), with the names under which types are
//! reported.
use vstd::prelude::*;
use crate::ast::{lookup_in, name_of_type_in, PrimitiveType, SpecSymbol, SymbolKind, SymbolTable, TypeId};
use crate::float_range::{text_within, text_within_bound};
use crate::syntax::{fields_view, FloatLiteral, SpecFloat};
use crate::text::{push_str, str_eq, string_from};

verus! {

/// The largest finite `f32`, in decimal digits.
fn f32_max() -> (s: &'static str)
    ensures
        s@ == f32_max_digits(),
{
    "340282346638528859811704183484516925440"
}

/// The largest finite `f64`, in decimal digits.
fn f64_max() -> (s: &'static str)
    ensures
        s@ == f64_max_digits(),
{
    "179769313486231570814527423731704356798070567525844996598917476803157260780028538760589558632766878171540458953514382464234321326889464182768467546703537516986049910576551282076245490090389328944075868508455133942304583236903222948165808559332123348274797826204144723168738177180919299881250404026184124858368"
}

/// The identifier of the first registered type: the primitive types take
/// the identifiers below it.
pub const FIRST_REGISTERED_TYPE: usize = 12;

/// A symbol in a scope: its name, kind and type, and whether it may be
/// assigned to.
#[derive(Debug)]
pub struct ScopedSymbol {
    pub name: String,
    pub kind: SymbolKind,
    pub type_id: TypeId,
    pub is_mutable: bool,
}

/// The mathematical content of a symbol in a scope.
pub struct SpecScopedSymbol {
    pub name: Seq<char>,
    pub kind: SymbolKind,
    pub type_id: TypeId,
    pub is_mutable: bool,
}

impl View for ScopedSymbol {
    type V = SpecScopedSymbol;

    open spec fn view(&self) -> SpecScopedSymbol {
        SpecScopedSymbol { name: self.name@, kind: self.kind, type_id: self.type_id, is_mutable: self.is_mutable }
    }
}

/// What a lookup finds: the kind and type of a symbol, and whether it may
/// be assigned to.
#[derive(Debug, Clone, Copy, PartialEq, Eq, Structural)]
pub struct SymbolInfo {
    pub kind: SymbolKind,
    pub type_id: TypeId,
    pub is_mutable: bool,
}

/// A type registered during analysis.
#[derive(Debug)]
pub enum RegisteredType {
    /// The type of functions with these parameter types and return type.
    Function { param_types: Vec<TypeId>, return_type: TypeId },
    /// A struct type with its fields.
    Struct { name: String, fields: Vec<(String, TypeId)> },
}

/// The mathematical content of a registered type.
pub enum SpecRegisteredType {
    Function { param_types: Seq<TypeId>, return_type: TypeId },
    Struct { name: Seq<char>, fields: Seq<(Seq<char>, TypeId)> },
}

impl View for RegisteredType {
    type V = SpecRegisteredType;

    open spec fn view(&self) -> SpecRegisteredType {
        match self {
            RegisteredType::Function { param_types, return_type } => SpecRegisteredType::Function {
                param_types: param_types@,
                return_type: *return_type,
            },
            RegisteredType::Struct { name, fields } => SpecRegisteredType::Struct {
                name: name@,
                fields: fields_view(fields@),
            },
        }
    }
}

/// The mathematical content of an analysis context: the scopes, innermost
/// last; the registered types, the `i`-th with identifier
/// `FIRST_REGISTERED_TYPE + i`; and the names of types.
pub struct SpecContext {
    pub scopes: Seq<Seq<SpecScopedSymbol>>,
    pub registered: Seq<SpecRegisteredType>,
    pub type_names: Seq<SpecSymbol>,
}

/// The first symbol named `name` in a scope.
pub open spec fn scope_lookup(scope: Seq<SpecScopedSymbol>, name: Seq<char>) -> Option<SpecScopedSymbol>
    decreases scope.len(),
{
    if scope.len() == 0 {
        None
    } else {
        match scope_lookup(scope.drop_last(), name) {
            Some(s) => Some(s),
            None => if scope.last().name == name {
                Some(scope.last())
            } else {
                None
            },
        }
    }
}

/// The symbol named `name` in the innermost scope that has one.
pub open spec fn scopes_lookup(scopes: Seq<Seq<SpecScopedSymbol>>, name: Seq<char>) -> Option<SpecScopedSymbol>
    decreases scopes.len(),
{
    if scopes.len() == 0 {
        None
    } else {
        match scope_lookup(scopes.last(), name) {
            Some(s) => Some(s),
            None => scopes_lookup(scopes.drop_last(), name),
        }
    }
}

/// The index of the first registered function type with these parameter
/// and return types.
pub open spec fn function_index(reg: Seq<SpecRegisteredType>, params: Seq<TypeId>, ret: TypeId) -> Option<int>
    decreases reg.len(),
{
    if reg.len() == 0 {
        None
    } else {
        match function_index(reg.drop_last(), params, ret) {
            Some(i) => Some(i),
            None => if reg.last() == (SpecRegisteredType::Function { param_types: params, return_type: ret }) {
                Some(reg.len() - 1)
            } else {
                None
            },
        }
    }
}

/// The names of the types `ts`, separated by commas.
pub open spec fn type_list_name(names: Seq<SpecSymbol>, ts: Seq<TypeId>) -> Seq<char>
    decreases ts.len(),
{
    if ts.len() == 0 {
        Seq::empty()
    } else if ts.len() == 1 {
        name_of_type_in(names, ts[0])
    } else {
        type_list_name(names, ts.drop_last()) + ", "@ + name_of_type_in(names, ts.last())
    }
}

/// The name of a function type: `fn(` the parameter types `) -> ` the
/// return type.
pub open spec fn function_type_name(names: Seq<SpecSymbol>, params: Seq<TypeId>, ret: TypeId) -> Seq<char> {
    "fn("@ + type_list_name(names, params) + ") -> "@ + name_of_type_in(names, ret)
}

/// The identifier of the `i`-th registered type.
pub open spec fn registered_id(i: int) -> TypeId {
    TypeId((FIRST_REGISTERED_TYPE + i) as usize)
}

/// Whether `t` is one of the integer types `i32`, `i64`, `u32`, `u64`.
pub open spec fn is_integer(t: TypeId) -> bool {
    t == PrimitiveType::I32.spec_type_id() || t == PrimitiveType::I64.spec_type_id() || t
        == PrimitiveType::U32.spec_type_id() || t == PrimitiveType::U64.spec_type_id()
}

/// Whether `t` is one of the float types `f32`, `f64`.
pub open spec fn is_float(t: TypeId) -> bool {
    t == PrimitiveType::F32.spec_type_id() || t == PrimitiveType::F64.spec_type_id()
}

/// Whether `t` is one of the unsigned integer types `u32`, `u64`.
pub open spec fn is_unsigned(t: TypeId) -> bool {
    t == PrimitiveType::U32.spec_type_id() || t == PrimitiveType::U64.spec_type_id()
}

/// Whether the integer `n` lies in the range of the integer type `t`; no
/// value lies in the range of another type.
pub open spec fn int_fits(n: i64, t: TypeId) -> bool {
    ||| t == PrimitiveType::I32.spec_type_id() && i32::MIN <= n <= i32::MAX
    ||| t == PrimitiveType::I64.spec_type_id()
    ||| t == PrimitiveType::U32.spec_type_id() && 0 <= n <= u32::MAX
    ||| t == PrimitiveType::U64.spec_type_id() && 0 <= n
}

/// The largest finite `f32`, in decimal digits.
pub open spec fn f32_max_digits() -> Seq<char> {
    "340282346638528859811704183484516925440"@
}

/// The largest finite `f64`, in decimal digits.
pub open spec fn f64_max_digits() -> Seq<char> {
    "179769313486231570814527423731704356798070567525844996598917476803157260780028538760589558632766878171540458953514382464234321326889464182768467546703537516986049910576551282076245490090389328944075868508455133942304583236903222948165808559332123348274797826204144723168738177180919299881250404026184124858368"@
}

/// Whether the float literal `f` may stand for a value of type `t`: a
/// float type whose largest finite value is at least the magnitude of the
/// literal. A literal that stands for a 64-bit integer fits either float
/// type; a decimal text is compared exactly with the largest value.
pub open spec fn float_fits(f: SpecFloat, t: TypeId) -> bool {
    match f {
        SpecFloat::Integer(_) => is_float(t),
        SpecFloat::Text(text) => (t == PrimitiveType::F32.spec_type_id() && text_within(text, f32_max_digits())) || (t
            == PrimitiveType::F64.spec_type_id() && text_within(text, f64_max_digits())),
    }
}

/// The primitive types, in the order of their identifiers.
pub open spec fn primitive_types() -> Seq<PrimitiveType> {
    seq![
        PrimitiveType::I32,
        PrimitiveType::I64,
        PrimitiveType::U32,
        PrimitiveType::U64,
        PrimitiveType::F32,
        PrimitiveType::F64,
        PrimitiveType::Bool,
        PrimitiveType::String,
        PrimitiveType::UnspecifiedInt,
        PrimitiveType::UnspecifiedFloat,
        PrimitiveType::Unknown,
        PrimitiveType::Unit,
    ]
}

/// The names of the primitive types.
pub open spec fn primitive_type_names() -> Seq<SpecSymbol> {
    primitive_types().map_values(
        |p: PrimitiveType| SpecSymbol { name: p.spec_name(), kind: SymbolKind::Type, type_id: p.spec_type_id() },
    )
}

/// The primitive types as symbols of the outermost scope.
pub open spec fn primitive_symbols() -> Seq<SpecScopedSymbol> {
    primitive_types().map_values(
        |p: PrimitiveType|
            SpecScopedSymbol { name: p.spec_name(), kind: SymbolKind::Type, type_id: p.spec_type_id(), is_mutable: false },
    )
}

/// The context analysis starts in: one scope, holding the primitive types,
/// and no registered type.
pub open spec fn initial_context() -> SpecContext {
    SpecContext { scopes: seq![primitive_symbols()], registered: Seq::empty(), type_names: primitive_type_names() }
}

impl SpecContext {
    /// There is at least one scope, every registered type has an
    /// identifier that fits in `usize`, and every named type is a primitive
    /// or a registered one.
    pub open spec fn wf(self) -> bool {
        &&& self.scopes.len() >= 1
        &&& FIRST_REGISTERED_TYPE + self.registered.len() <= usize::MAX + 1
        &&& forall|i: int|
            0 <= i < self.type_names.len() ==> (#[trigger] self.type_names[i]).type_id.0 < FIRST_REGISTERED_TYPE
                + self.registered.len()
    }

    /// The symbol named `name` in the innermost scope that has one.
    pub open spec fn lookup(self, name: Seq<char>) -> Option<SpecScopedSymbol> {
        scopes_lookup(self.scopes, name)
    }

    /// Whether the innermost scope has a symbol named `name`.
    pub open spec fn in_current_scope(self, name: Seq<char>) -> bool {
        scope_lookup(self.scopes.last(), name) is Some
    }

    /// The context with `sym` added to the innermost scope.
    pub open spec fn with_symbol(self, sym: SpecScopedSymbol) -> SpecContext {
        SpecContext { scopes: self.scopes.update(self.scopes.len() - 1, self.scopes.last().push(sym)), ..self }
    }

    /// Defining a symbol: refused when the innermost scope already has one
    /// of that name, else the symbol is added to it.
    pub open spec fn define(self, sym: SpecScopedSymbol) -> Option<SpecContext> {
        if self.in_current_scope(sym.name) {
            None
        } else {
            Some(self.with_symbol(sym))
        }
    }

    /// The context with a new innermost scope.
    pub open spec fn begun(self) -> SpecContext {
        SpecContext { scopes: self.scopes.push(Seq::empty()), ..self }
    }

    /// The context without its innermost scope; the outermost scope stays.
    pub open spec fn ended(self) -> SpecContext {
        if self.scopes.len() > 1 {
            SpecContext { scopes: self.scopes.drop_last(), ..self }
        } else {
            self
        }
    }

    /// The parameter and return types of `t`, if it is a function type.
    pub open spec fn function_type(self, t: TypeId) -> Option<(Seq<TypeId>, TypeId)> {
        let i = t.0 - FIRST_REGISTERED_TYPE;
        if 0 <= i < self.registered.len() {
            match self.registered[i] {
                SpecRegisteredType::Function { param_types, return_type } => Some((param_types, return_type)),
                _ => None,
            }
        } else {
            None
        }
    }

    /// Whether `t` is a function type.
    pub open spec fn is_function_type(self, t: TypeId) -> bool {
        self.function_type(t) is Some
    }

    /// The name of type `t`, `unknown` for a type without one.
    pub open spec fn name_of_type(self, t: TypeId) -> Seq<char> {
        name_of_type_in(self.type_names, t)
    }

    /// The registry is full: the next identifier would not fit in `usize`.
    pub open spec fn registry_full(self) -> bool {
        FIRST_REGISTERED_TYPE + self.registered.len() > usize::MAX
    }

    /// Registering the function type with these parameter and return types:
    /// the type registered before, if there is one; else a new type, named
    /// as function types are, unless the registry is full, when nothing is
    /// registered and the type is `unknown`.
    pub open spec fn with_function_type(self, params: Seq<TypeId>, ret: TypeId) -> (SpecContext, TypeId) {
        match function_index(self.registered, params, ret) {
            Some(i) => (self, registered_id(i)),
            None => if self.registry_full() {
                (self, PrimitiveType::Unknown.spec_type_id())
            } else {
                let id = registered_id(self.registered.len() as int);
                (
                    SpecContext {
                        registered: self.registered.push(
                            SpecRegisteredType::Function { param_types: params, return_type: ret },
                        ),
                        type_names: self.type_names.push(
                            SpecSymbol { name: function_type_name(self.type_names, params, ret), kind: SymbolKind::Type, type_id: id },
                        ),
                        ..self
                    },
                    id,
                )
            },
        }
    }

    /// Registering a struct type: refused when a type of that name exists,
    /// when the innermost scope has a symbol of that name, or when the
    /// registry is full; else the type is registered under its name, and
    /// the name is defined as a type in the innermost scope.
    pub open spec fn with_struct_type(self, name: Seq<char>, fields: Seq<(Seq<char>, TypeId)>) -> Option<(SpecContext, TypeId)> {
        if lookup_in(self.type_names, name) is Some || self.in_current_scope(name) || self.registry_full() {
            None
        } else {
            let id = registered_id(self.registered.len() as int);
            let registered = SpecContext {
                registered: self.registered.push(SpecRegisteredType::Struct { name, fields }),
                type_names: self.type_names.push(SpecSymbol { name, kind: SymbolKind::Type, type_id: id }),
                ..self
            };
            Some((registered.with_symbol(SpecScopedSymbol { name, kind: SymbolKind::Type, type_id: id, is_mutable: false }), id))
        }
    }
}

/// The scopes, registered types and type names that semantic analysis
/// works with.
pub struct AnalysisContext {
    scopes: Vec<Vec<ScopedSymbol>>,
    registered: Vec<RegisteredType>,
    type_names: SymbolTable,
}

impl View for AnalysisContext {
    type V = SpecContext;

    closed spec fn view(&self) -> SpecContext {
        SpecContext {
            scopes: self.scopes@.map_values(|v: Vec<ScopedSymbol>| v@.map_values(|s: ScopedSymbol| s@)),
            registered: self.registered@.map_values(|r: RegisteredType| r@),
            type_names: self.type_names@,
        }
    }
}

/// What a lookup reports of a symbol.
pub open spec fn info_of(s: SpecScopedSymbol) -> SymbolInfo {
    SymbolInfo { kind: s.kind, type_id: s.type_id, is_mutable: s.is_mutable }
}

/// The mathematical content of a scope.
pub open spec fn scope_view(v: Vec<ScopedSymbol>) -> Seq<SpecScopedSymbol> {
    v@.map_values(|s: ScopedSymbol| s@)
}

/// The `i`-th primitive type.
fn primitive_at(i: usize) -> (p: PrimitiveType)
    requires
        i < 12,
    ensures
        p == primitive_types()[i as int],
{
    match i {
        0 => PrimitiveType::I32,
        1 => PrimitiveType::I64,
        2 => PrimitiveType::U32,
        3 => PrimitiveType::U64,
        4 => PrimitiveType::F32,
        5 => PrimitiveType::F64,
        6 => PrimitiveType::Bool,
        7 => PrimitiveType::String,
        8 => PrimitiveType::UnspecifiedInt,
        9 => PrimitiveType::UnspecifiedFloat,
        10 => PrimitiveType::Unknown,
        _ => PrimitiveType::Unit,
    }
}

/// The first symbol found in a prefix of a scope is the first in the whole
/// scope.
proof fn lemma_scope_lookup_prefix(scope: Seq<SpecScopedSymbol>, name: Seq<char>, k: int)
    requires
        0 <= k <= scope.len(),
        scope_lookup(scope.take(k), name) is Some,
    ensures
        scope_lookup(scope, name) == scope_lookup(scope.take(k), name),
    decreases scope.len() - k,
{
    if k < scope.len() {
        assert(scope.take(k + 1).drop_last() =~= scope.take(k));
        lemma_scope_lookup_prefix(scope, name, k + 1);
    } else {
        assert(scope.take(k) =~= scope);
    }
}

/// Looks up `name` in one scope.
fn find_in_scope(scope: &Vec<ScopedSymbol>, name: &str) -> (r: Option<SymbolInfo>)
    ensures
        match scope_lookup(scope_view(*scope), name@) {
            Some(s) => r == Some(info_of(s)),
            None => r is None,
        },
{
    let ghost v = scope_view(*scope);
    let mut i: usize = 0;
    while i < scope.len()
        invariant
            i <= scope@.len(),
            v == scope_view(*scope),
            scope_lookup(v.take(i as int), name@) is None,
        decreases scope@.len() - i,
    {
        proof {
            assert(v.take(i + 1).drop_last() =~= v.take(i as int));
        }
        if str_eq(scope[i].name.as_str(), name) {
            proof {
                lemma_scope_lookup_prefix(v, name@, i as int + 1);
            }
            return Some(SymbolInfo { kind: scope[i].kind, type_id: scope[i].type_id, is_mutable: scope[i].is_mutable });
        }
        i = i + 1;
    }
    assert(v.take(v.len() as int) =~= v);
    None
}

/// The first function type found in a prefix of the registry is the first
/// in the whole registry.
proof fn lemma_function_index_prefix(reg: Seq<SpecRegisteredType>, params: Seq<TypeId>, ret: TypeId, k: int)
    requires
        0 <= k <= reg.len(),
        function_index(reg.take(k), params, ret) is Some,
    ensures
        function_index(reg, params, ret) == function_index(reg.take(k), params, ret),
    decreases reg.len() - k,
{
    if k < reg.len() {
        assert(reg.take(k + 1).drop_last() =~= reg.take(k));
        lemma_function_index_prefix(reg, params, ret, k + 1);
    } else {
        assert(reg.take(k) =~= reg);
    }
}

/// Whether two lists of types are the same.
fn same_types(a: &Vec<TypeId>, b: &Vec<TypeId>) -> (r: bool)
    ensures
        r == (a@ == b@),
{
    if a.len() != b.len() {
        return false;
    }
    let mut i: usize = 0;
    while i < a.len()
        invariant
            a@.len() == b@.len(),
            i <= a@.len(),
            forall|k: int| 0 <= k < i ==> a@[k] == b@[k],
        decreases a@.len() - i,
    {
        if a[i] != b[i] {
            return false;
        }
        i = i + 1;
    }
    assert(a@ =~= b@);
    true
}

/// A copy of a list of types.
fn copy_types(a: &Vec<TypeId>) -> (r: Vec<TypeId>)
    ensures
        r@ == a@,
{
    let mut r: Vec<TypeId> = Vec::new();
    let mut i: usize = 0;
    while i < a.len()
        invariant
            i <= a@.len(),
            r@ == a@.take(i as int),
        decreases a@.len() - i,
    {
        r.push(a[i]);
        i = i + 1;
        assert(r@ =~= a@.take(i as int));
    }
    assert(a@.take(a@.len() as int) =~= a@);
    r
}

/// The name of a function type, built from the names in `names`.
fn function_type_name_string(names: &SymbolTable, params: &Vec<TypeId>, ret: TypeId) -> (s: String)
    ensures
        s@ == function_type_name(names@, params@, ret),
{
    let mut list = String::new();
    let mut i: usize = 0;
    while i < params.len()
        invariant
            i <= params@.len(),
            list@ == type_list_name(names@, params@.take(i as int)),
        decreases params@.len() - i,
    {
        proof {
            assert(params@.take(i + 1).drop_last() =~= params@.take(i as int));
        }
        if i > 0 {
            push_str(&mut list, ", ");
        }
        push_str(&mut list, names.name_of_type(params[i]).as_str());
        i = i + 1;
        assert(list@ =~= type_list_name(names@, params@.take(i as int)));
    }
    assert(params@.take(params@.len() as int) =~= params@);
    let mut s = string_from("fn(");
    push_str(&mut s, list.as_str());
    push_str(&mut s, ") -> ");
    push_str(&mut s, names.name_of_type(ret).as_str());
    s
}

impl AnalysisContext {
    /// The context analysis starts in: one scope, holding the primitive
    /// types, and no registered type.
    pub fn new() -> (c: AnalysisContext)
        ensures
            c@ == initial_context(),
            c@.wf(),
    {
        let mut scope: Vec<ScopedSymbol> = Vec::new();
        let mut names = SymbolTable::new();
        let mut i: usize = 0;
        while i < 12
            invariant
                i <= 12,
                scope_view(scope) == primitive_symbols().take(i as int),
                names@ == primitive_type_names().take(i as int),
            decreases 12 - i,
        {
            let p = primitive_at(i);
            let ghost before = scope_view(scope);
            let sym = ScopedSymbol { name: string_from(p.name()), kind: SymbolKind::Type, type_id: p.type_id(), is_mutable: false };
            scope.push(sym);
            assert(scope_view(scope) =~= before.push(sym@));
            names.define(p.name(), SymbolKind::Type, p.type_id());
            assert(primitive_types().len() == 12);
            assert(primitive_symbols()[i as int] == SpecScopedSymbol {
                name: p.spec_name(),
                kind: SymbolKind::Type,
                type_id: p.spec_type_id(),
                is_mutable: false,
            });
            assert(primitive_type_names()[i as int] == SpecSymbol { name: p.spec_name(), kind: SymbolKind::Type, type_id: p.spec_type_id() });
            i = i + 1;
            assert(scope_view(scope) =~= primitive_symbols().take(i as int));
            assert(names@ =~= primitive_type_names().take(i as int));
        }
        assert(primitive_symbols().take(12) =~= primitive_symbols());
        assert(primitive_type_names().take(12) =~= primitive_type_names());
        let mut scopes: Vec<Vec<ScopedSymbol>> = Vec::new();
        scopes.push(scope);
        let c = AnalysisContext { scopes, registered: Vec::new(), type_names: names };
        assert(c@.scopes =~= seq![primitive_symbols()]);
        assert(c@.registered =~= Seq::<SpecRegisteredType>::empty());
        c
    }

    /// Opens a new innermost scope.
    pub fn begin_scope(&mut self)
        requires
            old(self)@.wf(),
        ensures
            final(self)@ == old(self)@.begun(),
            final(self)@.wf(),
    {
        let ghost before = self@;
        let empty: Vec<ScopedSymbol> = Vec::new();
        assert(scope_view(empty) =~= Seq::<SpecScopedSymbol>::empty());
        self.scopes.push(empty);
        assert(self@.scopes =~= before.scopes.push(Seq::empty()));
    }

    /// Closes the innermost scope; the outermost scope stays.
    pub fn end_scope(&mut self)
        requires
            old(self)@.wf(),
        ensures
            final(self)@ == old(self)@.ended(),
            final(self)@.wf(),
    {
        let ghost before = self@;
        if self.scopes.len() > 1 {
            self.scopes.pop();
            assert(self@.scopes =~= before.scopes.drop_last());
        }
    }

    /// Whether the innermost scope has a symbol named `name`.
    pub fn in_current_scope(&self, name: &str) -> (b: bool)
        requires
            self@.wf(),
        ensures
            b == self@.in_current_scope(name@),
    {
        let last = self.scopes.len() - 1;
        assert(self@.scopes.last() == scope_view(self.scopes@[last as int]));
        find_in_scope(&self.scopes[last], name).is_some()
    }

    /// The kind, type and mutability of the symbol named `name` in the
    /// innermost scope that has one.
    pub fn lookup_symbol(&self, name: &str) -> (r: Option<SymbolInfo>)
        ensures
            match self@.lookup(name@) {
                Some(s) => r == Some(info_of(s)),
                None => r is None,
            },
    {
        let ghost v = self@.scopes;
        let mut i: usize = self.scopes.len();
        assert(v.take(i as int) =~= v);
        while i > 0
            invariant
                i <= self.scopes@.len(),
                v == self@.scopes,
                scopes_lookup(v, name@) == scopes_lookup(v.take(i as int), name@),
            decreases i,
        {
            let found = find_in_scope(&self.scopes[i - 1], name);
            proof {
                assert(v.take(i as int).last() == scope_view(self.scopes@[i - 1]));
                assert(v.take(i as int).drop_last() =~= v.take(i - 1));
            }
            if found.is_some() {
                return found;
            }
            i = i - 1;
        }
        None
    }

    /// Defines a symbol in the innermost scope, unless that scope already
    /// has one of the same name; returns whether it was defined.
    pub fn define_symbol(&mut self, name: &str, kind: SymbolKind, type_id: TypeId, is_mutable: bool) -> (defined: bool)
        requires
            old(self)@.wf(),
        ensures
            match old(self)@.define(SpecScopedSymbol { name: name@, kind, type_id, is_mutable }) {
                Some(c) => defined && final(self)@ == c,
                None => !defined && final(self)@ == old(self)@,
            },
            final(self)@.wf(),
    {
        if self.in_current_scope(name) {
            return false;
        }
        self.push_symbol(name, kind, type_id, is_mutable);
        true
    }

    /// Adds a symbol to the innermost scope.
    fn push_symbol(&mut self, name: &str, kind: SymbolKind, type_id: TypeId, is_mutable: bool)
        requires
            old(self)@.wf(),
        ensures
            final(self)@ == old(self)@.with_symbol(SpecScopedSymbol { name: name@, kind, type_id, is_mutable }),
            final(self)@.wf(),
    {
        let ghost before = self@;
        let mut top = self.scopes.pop().unwrap();
        assert(scope_view(top) == before.scopes.last());
        let sym = ScopedSymbol { name: string_from(name), kind, type_id, is_mutable };
        top.push(sym);
        assert(scope_view(top) =~= before.scopes.last().push(sym@));
        self.scopes.push(top);
        assert(self@.scopes =~= before.scopes.update(before.scopes.len() - 1, before.scopes.last().push(sym@)));
    }

    /// The parameter and return types of `t`, if it is a function type.
    pub fn function_type(&self, t: TypeId) -> (r: Option<(Vec<TypeId>, TypeId)>)
        ensures
            match self@.function_type(t) {
                Some(ft) => r matches Some(found) && found.0@ == ft.0 && found.1 == ft.1,
                None => r is None,
            },
    {
        if t.0 >= FIRST_REGISTERED_TYPE && t.0 - FIRST_REGISTERED_TYPE < self.registered.len() {
            let i = t.0 - FIRST_REGISTERED_TYPE;
            assert(self@.registered[i as int] == self.registered@[i as int]@);
            match &self.registered[i] {
                RegisteredType::Function { param_types, return_type } => Some((copy_types(param_types), *return_type)),
                RegisteredType::Struct { .. } => None,
            }
        } else {
            None
        }
    }

    /// Whether `t` is a function type.
    pub fn is_function_type(&self, t: TypeId) -> (b: bool)
        ensures
            b == self@.is_function_type(t),
    {
        if t.0 >= FIRST_REGISTERED_TYPE && t.0 - FIRST_REGISTERED_TYPE < self.registered.len() {
            let i = t.0 - FIRST_REGISTERED_TYPE;
            assert(self@.registered[i as int] == self.registered@[i as int]@);
            match &self.registered[i] {
                RegisteredType::Function { .. } => true,
                RegisteredType::Struct { .. } => false,
            }
        } else {
            false
        }
    }

    /// Registers the function type with these parameter and return types,
    /// or finds it registered before; returns its identifier. When the
    /// registry is full nothing is registered and the type is `unknown`.
    pub fn register_function_type(&mut self, param_types: Vec<TypeId>, return_type: TypeId) -> (t: TypeId)
        requires
            old(self)@.wf(),
        ensures
            (final(self)@, t) == old(self)@.with_function_type(param_types@, return_type),
            final(self)@.wf(),
    {
        let ghost reg = self@.registered;
        let ghost start = self@;
        let mut i: usize = 0;
        while i < self.registered.len()
            invariant
                i <= self.registered@.len(),
                reg == self@.registered,
                self@ == start,
                start.wf(),
                function_index(reg.take(i as int), param_types@, return_type) is None,
            decreases self.registered@.len() - i,
        {
            proof {
                assert(reg.take(i + 1).drop_last() =~= reg.take(i as int));
                assert(reg[i as int] == self.registered@[i as int]@);
            }
            let same = match &self.registered[i] {
                RegisteredType::Function { param_types: ps, return_type: rt } => {
                    let s = same_types(ps, &param_types) && *rt == return_type;
                    proof {
                        if s {
                            assert(reg.take(i + 1).last() == (SpecRegisteredType::Function {
                                param_types: param_types@,
                                return_type,
                            }));
                        }
                    }
                    s
                },
                RegisteredType::Struct { .. } => false,
            };
            if same {
                proof {
                    lemma_function_index_prefix(reg, param_types@, return_type, i as int + 1);
                }
                return TypeId(FIRST_REGISTERED_TYPE + i);
            }
            i = i + 1;
        }
        assert(reg.take(reg.len() as int) =~= reg);
        if self.registered.len() > usize::MAX - FIRST_REGISTERED_TYPE {
            return PrimitiveType::Unknown.type_id();
        }
        let id = TypeId(FIRST_REGISTERED_TYPE + self.registered.len());
        let ghost before = self@;
        let name = function_type_name_string(&self.type_names, &param_types, return_type);
        self.type_names.define(name.as_str(), SymbolKind::Type, id);
        let ghost params = param_types@;
        self.registered.push(RegisteredType::Function { param_types, return_type });
        assert(self@.registered =~= before.registered.push(
            SpecRegisteredType::Function { param_types: params, return_type },
        ));
        id
    }

    /// Registers a struct type under its name and defines the name as a
    /// type in the innermost scope; refused, with `None`, when a type of
    /// that name exists, when the innermost scope has a symbol of that
    /// name, or when the registry is full.
    pub fn register_struct_type(&mut self, name: &str, fields: Vec<(String, TypeId)>) -> (r: Option<TypeId>)
        requires
            old(self)@.wf(),
        ensures
            match old(self)@.with_struct_type(name@, fields_view(fields@)) {
                Some((c, t)) => r == Some(t) && final(self)@ == c,
                None => r is None && final(self)@ == old(self)@,
            },
            final(self)@.wf(),
    {
        if self.type_names.lookup(name).is_some() || self.in_current_scope(name)
            || self.registered.len() > usize::MAX - FIRST_REGISTERED_TYPE {
            return None;
        }
        let id = TypeId(FIRST_REGISTERED_TYPE + self.registered.len());
        let ghost before = self@;
        let ghost fv = fields_view(fields@);
        self.type_names.define(name, SymbolKind::Type, id);
        self.registered.push(RegisteredType::Struct { name: string_from(name), fields });
        assert(self@.registered =~= before.registered.push(SpecRegisteredType::Struct { name: name@, fields: fv }));
        self.push_symbol(name, SymbolKind::Type, id, false);
        Some(id)
    }

    /// The name of type `t`, `unknown` for a type without one.
    pub fn get_type_name(&self, t: TypeId) -> (s: String)
        ensures
            s@ == self@.name_of_type(t),
    {
        self.type_names.name_of_type(t)
    }

    /// The names of all types, as a table from types to names.
    pub fn type_names(&self) -> (t: &SymbolTable)
        ensures
            t@ == self@.type_names,
    {
        &self.type_names
    }

    /// Whether `t` is one of the integer types `i32`, `i64`, `u32`, `u64`.
    pub fn is_integer_type(&self, t: TypeId) -> (b: bool)
        ensures
            b == is_integer(t),
    {
        t == PrimitiveType::I32.type_id() || t == PrimitiveType::I64.type_id() || t == PrimitiveType::U32.type_id()
            || t == PrimitiveType::U64.type_id()
    }

    /// Whether `t` is one of the float types `f32`, `f64`.
    pub fn is_float_type(&self, t: TypeId) -> (b: bool)
        ensures
            b == is_float(t),
    {
        t == PrimitiveType::F32.type_id() || t == PrimitiveType::F64.type_id()
    }

    /// Whether `t` is one of the unsigned integer types `u32`, `u64`.
    pub fn is_unsigned_type(&self, t: TypeId) -> (b: bool)
        ensures
            b == is_unsigned(t),
    {
        t == PrimitiveType::U32.type_id() || t == PrimitiveType::U64.type_id()
    }

    /// Whether the integer `n` lies in the range of the integer type `t`.
    pub fn check_value_in_range(&self, n: i64, t: TypeId) -> (b: bool)
        ensures
            b == int_fits(n, t),
    {
        (t == PrimitiveType::I32.type_id() && -2147483648 <= n && n <= 2147483647) || t == PrimitiveType::I64.type_id()
            || (t == PrimitiveType::U32.type_id() && 0 <= n && n <= 4294967295) || (t == PrimitiveType::U64.type_id() && 0
            <= n)
    }

    /// Whether the float literal `f` may stand for a value of type `t`.
    pub fn check_float_value_in_range(&self, f: &FloatLiteral, t: TypeId) -> (b: bool)
        ensures
            b == float_fits(f@, t),
    {
        match f {
            FloatLiteral::Integer(_) => self.is_float_type(t),
            FloatLiteral::Text(text) => if t == PrimitiveType::F32.type_id() {
                text_within_bound(text.as_str(), f32_max())
            } else if t == PrimitiveType::F64.type_id() {
                text_within_bound(text.as_str(), f64_max())
            } else {
                false
            },
        }
    }
}

/// The index `function_index` finds holds that function type.
proof fn lemma_function_index_found(reg: Seq<SpecRegisteredType>, params: Seq<TypeId>, ret: TypeId)
    ensures
        match function_index(reg, params, ret) {
            Some(i) => 0 <= i < reg.len() && reg[i] == (SpecRegisteredType::Function { param_types: params, return_type: ret }),
            None => true,
        },
    decreases reg.len(),
{
    if reg.len() > 0 {
        lemma_function_index_found(reg.drop_last(), params, ret);
    }
}

/// A symbol just defined is what its name refers to.
pub proof fn lemma_define_then_lookup(c: SpecContext, sym: SpecScopedSymbol)
    requires
        c.wf(),
        c.define(sym) is Some,
    ensures
        c.define(sym)->0.lookup(sym.name) == Some(sym),
        c.define(sym)->0.wf(),
{
    let c2 = c.define(sym)->0;
    assert(c2.scopes.last() == c.scopes.last().push(sym));
    assert(c.scopes.last().push(sym).drop_last() =~= c.scopes.last());
}

/// Closing a scope just opened gives back the context as it was.
pub proof fn lemma_begun_then_ended(c: SpecContext)
    requires
        c.wf(),
    ensures
        c.begun().ended() == c,
{
    assert(c.begun().scopes.drop_last() =~= c.scopes);
}

/// Registering a function type a second time finds the first registration
/// and changes nothing; unless the registry was full, the type returned is
/// a function type with those parameter and return types.
pub proof fn lemma_function_type_registration(c: SpecContext, params: Seq<TypeId>, ret: TypeId)
    requires
        c.wf(),
    ensures
        c.with_function_type(params, ret).0.with_function_type(params, ret) == c.with_function_type(params, ret),
        c.with_function_type(params, ret).0.wf(),
        c.with_function_type(params, ret).1 == PrimitiveType::Unknown.spec_type_id()
            || c.with_function_type(params, ret).0.function_type(c.with_function_type(params, ret).1) == Some((params, ret)),
        !c.registry_full() ==> c.with_function_type(params, ret).0.function_type(c.with_function_type(params, ret).1) == Some(
            (params, ret),
        ),
{
    lemma_function_index_found(c.registered, params, ret);
    let (c1, t) = c.with_function_type(params, ret);
    match function_index(c.registered, params, ret) {
        Some(i) => {},
        None => {
            if !c.registry_full() {
                let f = SpecRegisteredType::Function { param_types: params, return_type: ret };
                assert(c1.registered.drop_last() =~= c.registered);
                assert(function_index(c1.registered, params, ret) == Some(c.registered.len() as int));
            }
        },
    }
}

/// A name given to a type that had none is the name that type is reported
/// by.
proof fn lemma_name_of_fresh_type(names: Seq<SpecSymbol>, sym: SpecSymbol)
    requires
        forall|i: int| 0 <= i < names.len() ==> (#[trigger] names[i]).type_id != sym.type_id,
        sym.kind == SymbolKind::Type,
    ensures
        name_of_type_in(names.push(sym), sym.type_id) == sym.name,
{
    assert(names.push(sym).drop_last() =~= names);
    if exists|i: int| 0 <= i < names.len() && #[trigger] names[i].kind == SymbolKind::Type && names[i].type_id == sym.type_id {
        let i = choose|i: int| 0 <= i < names.len() && #[trigger] names[i].kind == SymbolKind::Type && names[i].type_id == sym.type_id;
        assert(names[i].type_id != sym.type_id);
    }
}

/// A struct type, once registered, is what its name refers to in the
/// innermost scope, it is reported under its name, and the context stays
/// well formed.
pub proof fn lemma_struct_registration(c: SpecContext, name: Seq<char>, fields: Seq<(Seq<char>, TypeId)>)
    requires
        c.wf(),
        c.with_struct_type(name, fields) is Some,
    ensures
        ({
            let (c1, t) = c.with_struct_type(name, fields)->0;
            &&& c1.wf()
            &&& c1.lookup(name) == Some(SpecScopedSymbol { name, kind: SymbolKind::Type, type_id: t, is_mutable: false })
            &&& c1.name_of_type(t) == name
            &&& c1.registered.last() == (SpecRegisteredType::Struct { name, fields })
        }),
{
    let (c1, t) = c.with_struct_type(name, fields)->0;
    let sym = SpecSymbol { name, kind: SymbolKind::Type, type_id: t };
    assert forall|i: int| 0 <= i < c.type_names.len() implies (#[trigger] c.type_names[i]).type_id != t by {
        assert(c.type_names[i].type_id.0 < FIRST_REGISTERED_TYPE + c.registered.len());
    }
    lemma_name_of_fresh_type(c.type_names, sym);
    let registered = SpecContext {
        registered: c.registered.push(SpecRegisteredType::Struct { name, fields }),
        type_names: c.type_names.push(sym),
        ..c
    };
    assert(registered.wf());
    let ssym = SpecScopedSymbol { name, kind: SymbolKind::Type, type_id: t, is_mutable: false };
    assert(registered.define(ssym) == Some(c1));
    lemma_define_then_lookup(registered, ssym);
}

/// A function type registered for the first time is reported by its
/// signature: `fn(`, the parameter types, `) -> `, the return type.
pub proof fn lemma_function_type_name(c: SpecContext, params: Seq<TypeId>, ret: TypeId)
    requires
        c.wf(),
        function_index(c.registered, params, ret) is None,
        !c.registry_full(),
    ensures
        c.with_function_type(params, ret).0.name_of_type(c.with_function_type(params, ret).1) == function_type_name(
            c.type_names,
            params,
            ret,
        ),
{
    let t = registered_id(c.registered.len() as int);
    let sym = SpecSymbol { name: function_type_name(c.type_names, params, ret), kind: SymbolKind::Type, type_id: t };
    assert forall|i: int| 0 <= i < c.type_names.len() implies (#[trigger] c.type_names[i]).type_id != t by {
        assert(c.type_names[i].type_id.0 < FIRST_REGISTERED_TYPE + c.registered.len());
    }
    lemma_name_of_fresh_type(c.type_names, sym);
}

} // verus!
