//! The decisions behind the enum helpers `NamedEnum`, `NumericEnum` and
//! `IterableEnum`: the name of each variant, the number of each variant,
//! the order in which variants are listed, the lookups that the helpers
//! provide, and the errors they report for input they cannot handle.
use vstd::prelude::*;
use crate::semantic_error::strings_view;
use crate::text::string_from;

verus! {

/// The lower-case form of `s` in the sense of Unicode (`str::to_lowercase`).
pub uninterp spec fn spec_lowercase(s: Seq<char>) -> Seq<char>;

/// The lower-case form of `s`.
///
/// Trusted: calls `str::to_lowercase`; the result is named by
/// `spec_lowercase`, and nothing more is claimed of it.
#[verifier::external_body]
pub(crate) fn lowercase(s: &str) -> (r: String)
    ensures
        r@ == spec_lowercase(s@),
{
    s.to_lowercase()
}

/// The `#[name = ...]` attribute of a variant, as written.
pub enum NameAttribute {
    /// No attribute.
    Absent,
    /// `#[name = "text"]`.
    Text(String),
    /// `#[name = value]` with a value that is not a string literal.
    NotText,
    /// An attribute not of the form `#[name = value]`.
    Malformed,
}

/// The discriminant of a variant, as written.
pub enum Discriminant {
    /// No discriminant.
    Implicit,
    /// An integer literal with this value.
    Integer(usize),
    /// An integer literal whose value does not fit in a machine word.
    Unparsable,
    /// An expression that is not an integer literal.
    NotInteger,
}

/// A variant of an enum: its identifier, name attribute, discriminant and
/// whether it holds data.
pub struct VariantInput {
    /// The identifier of the variant.
    pub ident: String,
    /// The `#[name = ...]` attribute.
    pub name_attribute: NameAttribute,
    /// The discriminant.
    pub discriminant: Discriminant,
    /// Whether the variant holds data.
    pub has_fields: bool,
}

/// The type an enum helper is derived for.
pub struct EnumInput {
    /// Whether the type is an enum.
    pub is_enum: bool,
    /// Its variants, in order.
    pub variants: Vec<VariantInput>,
}

/// An error of an enum derivation: its message, and the variant at which
/// it is reported, or `None` when it is reported at the type itself.
#[derive(Debug, Clone, PartialEq, Eq)]
pub struct DeriveError {
    pub message: String,
    pub variant: Option<usize>,
}

/// The mathematical content of a derivation error.
pub struct SpecDeriveError {
    pub message: Seq<char>,
    pub variant: Option<int>,
}

impl View for DeriveError {
    type V = SpecDeriveError;

    open spec fn view(&self) -> SpecDeriveError {
        SpecDeriveError {
            message: self.message@,
            variant: match self.variant {
                Some(i) => Some(i as int),
                None => None,
            },
        }
    }
}

/// An error reported at the type itself.
fn type_error(message: &str) -> (e: DeriveError)
    ensures
        e@ == (SpecDeriveError { message: message@, variant: None }),
{
    DeriveError { message: string_from(message), variant: None }
}

/// An error reported at variant `variant`.
fn variant_error(message: String, variant: usize) -> (e: DeriveError)
    ensures
        e@ == (SpecDeriveError { message: message@, variant: Some(variant as int) }),
{
    DeriveError { message, variant: Some(variant) }
}

/// The message for a named enum derived on a type that is not an enum.
pub open spec fn named_not_enum_message() -> Seq<char> {
    "NamedEnum can only be derived for enums"@
}

/// The message for a name attribute whose value is not a string literal.
pub open spec fn name_not_text_message() -> Seq<char> {
    "name attribute must have a string literal value"@
}

/// The message for a name attribute of the wrong form.
pub open spec fn name_malformed_message() -> Seq<char> {
    "name attribute must be in the form #[name = \"value\"]"@
}

/// The message for a numeric enum derived on a type that is not an enum.
pub open spec fn numeric_not_enum_message() -> Seq<char> {
    "NumericEnum can only be derived for enums"@
}

/// The message for a discriminant that does not fit in a machine word.
pub open spec fn unparsable_discriminant_message() -> Seq<char> {
    "Enum discriminant must be a valid integer"@
}

/// The message for a discriminant that is not an integer literal.
pub open spec fn non_integer_discriminant_message() -> Seq<char> {
    "NumericEnum requires integer literals as enum discriminants"@
}

/// The message for an iterable enum derived on a type that is not an enum.
pub open spec fn iterable_not_enum_message() -> Seq<char> {
    "IterableEnum can only be derived for enums"@
}

/// The message for an iterable enum with a variant that holds data.
pub open spec fn iterable_fields_message() -> Seq<char> {
    "IterableEnum can only be derived for enums with unit variants (no associated data)"@
}

/// The name given by a name attribute, where `lowered` is the identifier of
/// the variant in lower case; or the error the attribute causes.
pub open spec fn name_from(attribute: NameAttribute, lowered: Seq<char>) -> Result<Seq<char>, Seq<char>> {
    match attribute {
        NameAttribute::Absent => Ok(lowered),
        NameAttribute::Text(t) => Ok(t@),
        NameAttribute::NotText => Err(name_not_text_message()),
        NameAttribute::Malformed => Err(name_malformed_message()),
    }
}

/// The name of a variant: the text of its name attribute, or its
/// identifier in lower case; or the error its attribute causes.
pub open spec fn variant_name(v: VariantInput) -> Result<Seq<char>, Seq<char>> {
    name_from(v.name_attribute, spec_lowercase(v.ident@))
}

/// The name that `attribute` gives a variant whose identifier in lower case
/// is `lowered_ident`, or the error the attribute causes.
pub fn resolve_name(attribute: &NameAttribute, lowered_ident: &str) -> (r: Result<String, String>)
    ensures
        match r {
            Ok(name) => name_from(*attribute, lowered_ident@) == Ok::<Seq<char>, Seq<char>>(name@),
            Err(msg) => name_from(*attribute, lowered_ident@) == Err::<Seq<char>, Seq<char>>(msg@),
        },
{
    match attribute {
        NameAttribute::Absent => Ok(string_from(lowered_ident)),
        NameAttribute::Text(t) => Ok(t.clone()),
        NameAttribute::NotText => Err(string_from("name attribute must have a string literal value")),
        NameAttribute::Malformed => Err(string_from("name attribute must be in the form #[name = \"value\"]")),
    }
}

/// The names of the variants, or the error of the first variant whose
/// attribute is wrong, with the index of that variant.
pub open spec fn variant_names(vs: Seq<VariantInput>) -> Result<Seq<Seq<char>>, (Seq<char>, int)>
    decreases vs.len(),
{
    if vs.len() == 0 {
        Ok(seq![])
    } else {
        match variant_names(vs.drop_last()) {
            Err(e) => Err(e),
            Ok(names) => match variant_name(vs.last()) {
                Ok(n) => Ok(names.push(n)),
                Err(e) => Err((e, vs.len() - 1)),
            },
        }
    }
}

/// The numbers of the variants and the number an implicit variant after
/// them would get: an explicit discriminant is the number of its variant,
/// an implicit one is one more than the number before it (0 for the
/// first); or the error of the first discriminant that is not a number,
/// with the index of its variant.
pub open spec fn variant_numbers(vs: Seq<Discriminant>) -> Result<(Seq<int>, int), (Seq<char>, int)>
    decreases vs.len(),
{
    if vs.len() == 0 {
        Ok((seq![], 0))
    } else {
        match variant_numbers(vs.drop_last()) {
            Err(e) => Err(e),
            Ok((values, next)) => match vs.last() {
                Discriminant::Implicit => Ok((values.push(next), next + 1)),
                Discriminant::Integer(v) => Ok((values.push(v as int), v + 1)),
                Discriminant::Unparsable => Err((unparsable_discriminant_message(), vs.len() - 1)),
                Discriminant::NotInteger => Err((non_integer_discriminant_message(), vs.len() - 1)),
            },
        }
    }
}

/// Every number computed along the way, including the one after the last
/// variant, fits in a machine word.
pub open spec fn numbers_fit(vs: Seq<Discriminant>) -> bool
    decreases vs.len(),
{
    if vs.len() == 0 {
        true
    } else {
        &&& numbers_fit(vs.drop_last())
        &&& match variant_numbers(vs) {
            Ok((_, next)) => next <= usize::MAX,
            Err(_) => true,
        }
    }
}

/// The discriminants of the variants.
pub open spec fn discriminants(vs: Seq<VariantInput>) -> Seq<Discriminant> {
    vs.map_values(|v: VariantInput| v.discriminant)
}

/// The index of the first entry of `items` equal to `x`, if any.
pub open spec fn first_index_of<T>(items: Seq<T>, x: T) -> Option<int>
    decreases items.len(),
{
    if items.len() == 0 {
        None
    } else {
        match first_index_of(items.drop_last(), x) {
            Some(i) => Some(i),
            None => if items.last() == x {
                Some(items.len() - 1)
            } else {
                None
            },
        }
    }
}

/// Names of the variants of an enum, and lookup of a variant by its name.
pub struct NamedEnum {
    names: Vec<String>,
}

impl View for NamedEnum {
    type V = Seq<Seq<char>>;

    closed spec fn view(&self) -> Seq<Seq<char>> {
        strings_view(self.names@)
    }
}

/// Numbers of the variants of an enum, and lookup of a variant by its number.
pub struct NumericEnum {
    values: Vec<usize>,
}

impl View for NumericEnum {
    type V = Seq<int>;

    closed spec fn view(&self) -> Seq<int> {
        self.values@.map_values(|v: usize| v as int)
    }
}

/// The variants of an enum, listed in order.
pub struct IterableEnum {
    count: usize,
}

impl View for IterableEnum {
    type V = nat;

    closed spec fn view(&self) -> nat {
        self.count as nat
    }
}

/// Derives the names of the variants of an enum. Fails when the type is
/// not an enum, reported at the type, or with the error of the first
/// variant whose name attribute is not `#[name = "text"]`, reported at that
/// variant.
pub fn derive_named_enum(input: &EnumInput) -> (r: Result<NamedEnum, DeriveError>)
    ensures
        !input.is_enum ==> (r matches Err(e) && e@ == (SpecDeriveError { message: named_not_enum_message(), variant: None })),
        input.is_enum ==> match variant_names(input.variants@) {
            Ok(names) => (r matches Ok(e) && e@ == names),
            Err((m, k)) => (r matches Err(e) && e@ == (SpecDeriveError { message: m, variant: Some(k) })),
        },
{
    if !input.is_enum {
        return Err(type_error("NamedEnum can only be derived for enums"));
    }
    let mut names: Vec<String> = Vec::new();
    let mut i: usize = 0;
    assert(input.variants@.take(0) =~= seq![]);
    assert(strings_view(names@) =~= seq![]);
    while i < input.variants.len()
        invariant
            input.is_enum,
            i <= input.variants@.len(),
            variant_names(input.variants@.take(i as int)) == Ok::<Seq<Seq<char>>, (Seq<char>, int)>(strings_view(names@)),
        decreases input.variants@.len() - i,
    {
        let v = &input.variants[i];
        proof {
            assert(input.variants@.take(i + 1).drop_last() =~= input.variants@.take(i as int));
            assert(input.variants@.take(i + 1).last() == *v);
        }
        let lowered = match &v.name_attribute {
            NameAttribute::Absent => lowercase(v.ident.as_str()),
            _ => String::new(),
        };
        let name = match resolve_name(&v.name_attribute, lowered.as_str()) {
            Ok(name) => name,
            Err(msg) => {
                proof {
                    lemma_names_error_persists(input.variants@, i as int + 1);
                }
                return Err(variant_error(msg, i));
            },
        };
        let ghost before = names@;
        names.push(name);
        i = i + 1;
        assert(strings_view(names@) =~= strings_view(before).push(name@));
    }
    assert(input.variants@.take(input.variants@.len() as int) =~= input.variants@);
    Ok(NamedEnum { names })
}

/// Once the names of a prefix fail, the names of the whole list fail with
/// the same error.
proof fn lemma_names_error_persists(vs: Seq<VariantInput>, k: int)
    requires
        0 <= k <= vs.len(),
        variant_names(vs.take(k)) is Err,
    ensures
        variant_names(vs) == variant_names(vs.take(k)),
    decreases vs.len() - k,
{
    if k < vs.len() {
        assert(vs.take(k + 1).drop_last() =~= vs.take(k));
        lemma_names_error_persists(vs, k + 1);
    } else {
        assert(vs.take(k) =~= vs);
    }
}

impl NamedEnum {
    /// The number of variants.
    pub fn len(&self) -> (n: usize)
        ensures
            n == self@.len(),
    {
        self.names.len()
    }

    /// The name of variant `variant`.
    pub fn name(&self, variant: usize) -> (s: &str)
        requires
            variant < self@.len(),
        ensures
            s@ == self@[variant as int],
    {
        self.names[variant].as_str()
    }

    /// The first variant whose name is `s`, if any.
    pub fn from_str(&self, s: &str) -> (r: Option<usize>)
        ensures
            match first_index_of(self@, s@) {
                Some(i) => r == Some(i as usize),
                None => r is None,
            },
    {
        let mut i: usize = 0;
        while i < self.names.len()
            invariant
                i <= self.names@.len(),
                self@ == strings_view(self.names@),
                first_index_of(self@.take(i as int), s@) is None,
            decreases self.names@.len() - i,
        {
            proof {
                assert(self@.take(i + 1).drop_last() =~= self@.take(i as int));
            }
            if crate::text::str_eq(self.names[i].as_str(), s) {
                proof {
                    lemma_first_index_prefix(self@, s@, i as int + 1);
                }
                return Some(i);
            }
            i = i + 1;
        }
        assert(self@.take(self@.len() as int) =~= self@);
        None
    }
}

/// The first index of `x` in a prefix that holds it is its first index in
/// the whole sequence.
proof fn lemma_first_index_prefix<T>(items: Seq<T>, x: T, k: int)
    requires
        0 <= k <= items.len(),
        first_index_of(items.take(k), x) is Some,
    ensures
        first_index_of(items, x) == first_index_of(items.take(k), x),
    decreases items.len() - k,
{
    if k < items.len() {
        assert(items.take(k + 1).drop_last() =~= items.take(k));
        lemma_first_index_prefix(items, x, k + 1);
    } else {
        assert(items.take(k) =~= items);
    }
}

/// Once the numbers of a prefix fail, the numbers of the whole list fail
/// with the same error.
proof fn lemma_numbers_error_persists(vs: Seq<Discriminant>, k: int)
    requires
        0 <= k <= vs.len(),
        variant_numbers(vs.take(k)) is Err,
    ensures
        variant_numbers(vs) == variant_numbers(vs.take(k)),
    decreases vs.len() - k,
{
    if k < vs.len() {
        assert(vs.take(k + 1).drop_last() =~= vs.take(k));
        lemma_numbers_error_persists(vs, k + 1);
    } else {
        assert(vs.take(k) =~= vs);
    }
}

/// What fits for a list fits for each of its prefixes.
proof fn lemma_numbers_fit_prefix(vs: Seq<Discriminant>, k: int)
    requires
        0 <= k <= vs.len(),
        numbers_fit(vs),
    ensures
        numbers_fit(vs.take(k)),
    decreases vs.len(),
{
    if k == vs.len() {
        assert(vs.take(k) =~= vs);
    } else {
        assert(vs.drop_last().take(k) =~= vs.take(k));
        lemma_numbers_fit_prefix(vs.drop_last(), k);
    }
}

/// Derives the numbers of the variants of an enum. Fails when the type is
/// not an enum, or with the error of the first discriminant that is not an
/// integer literal that fits in a machine word. The first error is
/// reported at the type, the second at the variant of that discriminant.
pub fn derive_numeric_enum(input: &EnumInput) -> (r: Result<NumericEnum, DeriveError>)
    requires
        numbers_fit(discriminants(input.variants@)),
    ensures
        !input.is_enum ==> (r matches Err(e) && e@ == (SpecDeriveError { message: numeric_not_enum_message(), variant: None })),
        input.is_enum ==> match variant_numbers(discriminants(input.variants@)) {
            Ok((values, _)) => (r matches Ok(e) && e@ == values),
            Err((m, k)) => (r matches Err(e) && e@ == (SpecDeriveError { message: m, variant: Some(k) })),
        },
{
    if !input.is_enum {
        return Err(type_error("NumericEnum can only be derived for enums"));
    }
    let ghost ds = discriminants(input.variants@);
    let mut values: Vec<usize> = Vec::new();
    let mut next: usize = 0;
    let mut i: usize = 0;
    assert(ds.take(0) =~= seq![]);
    assert(values@.map_values(|v: usize| v as int) =~= seq![]);
    while i < input.variants.len()
        invariant
            input.is_enum,
            ds == discriminants(input.variants@),
            ds.len() == input.variants@.len(),
            numbers_fit(ds),
            i <= input.variants@.len(),
            variant_numbers(ds.take(i as int)) == Ok::<(Seq<int>, int), (Seq<char>, int)>(
                (values@.map_values(|v: usize| v as int), next as int),
            ),
        decreases input.variants@.len() - i,
    {
        let v = &input.variants[i];
        proof {
            assert(ds.take(i + 1).drop_last() =~= ds.take(i as int));
            assert(ds.take(i + 1).last() == v.discriminant);
            lemma_numbers_fit_prefix(ds, i + 1);
        }
        let value = match &v.discriminant {
            Discriminant::Implicit => next,
            Discriminant::Integer(n) => *n,
            Discriminant::Unparsable => {
                proof {
                    lemma_numbers_error_persists(ds, i as int + 1);
                }
                return Err(variant_error(string_from("Enum discriminant must be a valid integer"), i));
            },
            Discriminant::NotInteger => {
                proof {
                    lemma_numbers_error_persists(ds, i as int + 1);
                }
                return Err(variant_error(string_from("NumericEnum requires integer literals as enum discriminants"), i));
            },
        };
        let ghost before = values@;
        values.push(value);
        next = value + 1;
        i = i + 1;
        assert(values@.map_values(|v: usize| v as int) =~= before.map_values(|v: usize| v as int).push(
            value as int,
        ));
    }
    assert(ds.take(ds.len() as int) =~= ds);
    Ok(NumericEnum { values })
}

impl NumericEnum {
    /// The number of variants.
    pub fn len(&self) -> (n: usize)
        ensures
            n == self@.len(),
    {
        self.values.len()
    }

    /// The number of variant `variant`.
    pub fn to_int(&self, variant: usize) -> (n: usize)
        requires
            variant < self@.len(),
        ensures
            n == self@[variant as int],
    {
        self.values[variant]
    }

    /// The first variant whose number is `value`, if any.
    pub fn from_int(&self, value: usize) -> (r: Option<usize>)
        ensures
            match first_index_of(self@, value as int) {
                Some(i) => r == Some(i as usize),
                None => r is None,
            },
    {
        let mut i: usize = 0;
        while i < self.values.len()
            invariant
                i <= self.values@.len(),
                self@ == self.values@.map_values(|v: usize| v as int),
                first_index_of(self@.take(i as int), value as int) is None,
            decreases self.values@.len() - i,
        {
            proof {
                assert(self@.take(i + 1).drop_last() =~= self@.take(i as int));
            }
            if self.values[i] == value {
                proof {
                    lemma_first_index_prefix(self@, value as int, i as int + 1);
                }
                return Some(i);
            }
            i = i + 1;
        }
        assert(self@.take(self@.len() as int) =~= self@);
        None
    }
}

/// Whether some variant holds data.
pub open spec fn some_variant_has_fields(vs: Seq<VariantInput>) -> bool {
    exists|i: int| 0 <= i < vs.len() && (#[trigger] vs[i]).has_fields
}

/// Whether `k` is the first variant that holds data.
pub open spec fn first_with_fields(vs: Seq<VariantInput>, k: int) -> bool {
    &&& 0 <= k < vs.len()
    &&& vs[k].has_fields
    &&& forall|j: int| 0 <= j < k ==> !(#[trigger] vs[j]).has_fields
}

/// Lists the variants of an enum. Fails when the type is not an enum,
/// reported at the type, or when a variant holds data, reported at the
/// first such variant.
pub fn derive_iterable_enum(input: &EnumInput) -> (r: Result<IterableEnum, DeriveError>)
    ensures
        !input.is_enum ==> (r matches Err(e) && e@ == (SpecDeriveError { message: iterable_not_enum_message(), variant: None })),
        input.is_enum && some_variant_has_fields(input.variants@) ==> (r matches Err(e) && e@.message
            == iterable_fields_message() && (e@.variant matches Some(k) && first_with_fields(input.variants@, k))),
        input.is_enum && !some_variant_has_fields(input.variants@) ==> (r matches Ok(e) && e@
            == input.variants@.len()),
{
    if !input.is_enum {
        return Err(type_error("IterableEnum can only be derived for enums"));
    }
    let mut i: usize = 0;
    while i < input.variants.len()
        invariant
            input.is_enum,
            i <= input.variants@.len(),
            forall|k: int| 0 <= k < i ==> !(#[trigger] input.variants@[k]).has_fields,
        decreases input.variants@.len() - i,
    {
        if input.variants[i].has_fields {
            return Err(variant_error(
                string_from("IterableEnum can only be derived for enums with unit variants (no associated data)"),
                i,
            ));
        }
        i = i + 1;
    }
    Ok(IterableEnum { count: input.variants.len() })
}

impl IterableEnum {
    /// The number of variants.
    pub fn len(&self) -> (n: usize)
        ensures
            n == self@,
    {
        self.count
    }

    /// The variants, in the order in which they are declared.
    pub fn iter(&self) -> (r: Vec<usize>)
        ensures
            r@ == Seq::new(self@, |i: int| i as usize),
    {
        let mut r: Vec<usize> = Vec::new();
        let mut i: usize = 0;
        while i < self.count
            invariant
                i <= self.count,
                r@ == Seq::new(i as nat, |k: int| k as usize),
            decreases self.count - i,
        {
            r.push(i);
            i = i + 1;
            assert(r@ =~= Seq::new(i as nat, |k: int| k as usize));
        }
        r
    }
}

/// Lookup by name or by number finds, for the name or number of variant
/// `i`, a variant no later than `i` that has that name or number; it finds
/// `i` itself when no earlier variant shares it.
pub proof fn lemma_lookup_finds_variant<T>(items: Seq<T>, i: int)
    requires
        0 <= i < items.len(),
    ensures
        first_index_of(items, items[i]) matches Some(j) && 0 <= j <= i && items[j] == items[i],
        (forall|k: int| 0 <= k < i ==> items[k] != items[i]) ==> first_index_of(items, items[i])
            == Some(i),
    decreases items.len(),
{
    if i < items.len() - 1 {
        lemma_lookup_finds_variant(items.drop_last(), i);
    } else {
        lemma_lookup_absent(items.drop_last(), items[i]);
    }
}

/// Lookup by name or by number finds nothing exactly when no variant has
/// that name or number, and what it finds has it.
pub proof fn lemma_lookup_absent<T>(items: Seq<T>, x: T)
    ensures
        first_index_of(items, x) is None <==> !items.contains(x),
        first_index_of(items, x) matches Some(j) ==> 0 <= j < items.len() && items[j] == x,
    decreases items.len(),
{
    if items.len() > 0 {
        lemma_lookup_absent(items.drop_last(), x);
        if items.drop_last().contains(x) {
            let k = choose|k: int| 0 <= k < items.drop_last().len() && items.drop_last()[k] == x;
            assert(items[k] == x);
        }
        if items.contains(x) && !items.drop_last().contains(x) {
            let k = choose|k: int| 0 <= k < items.len() && items[k] == x;
            if k < items.len() - 1 {
                assert(items.drop_last()[k] == x);
            }
        }
    }
}

/// The number of a variant with a discriminant is that discriminant; the
/// number of a variant without one is one more than the number of the
/// variant before it, or 0 for the first variant.
pub proof fn lemma_numbers_follow_discriminants(ds: Seq<Discriminant>)
    requires
        variant_numbers(ds) is Ok,
    ensures
        ({
            let values = variant_numbers(ds)->Ok_0.0;
            &&& values.len() == ds.len()
            &&& forall|i: int| 0 <= i < ds.len() ==> match #[trigger] ds[i] {
                Discriminant::Integer(n) => values[i] == n as int,
                Discriminant::Implicit => values[i] == if i == 0 { 0 } else { values[i - 1] + 1 },
                _ => false,
            }
            &&& variant_numbers(ds)->Ok_0.1 == if ds.len() == 0 { 0 } else { values[ds.len() - 1] + 1 }
        }),
    decreases ds.len(),
{
    if ds.len() > 0 {
        let prefix = ds.drop_last();
        assert(variant_numbers(prefix) is Ok);
        lemma_numbers_follow_discriminants(prefix);
        let values = variant_numbers(ds)->Ok_0.0;
        let before = variant_numbers(prefix)->Ok_0.0;
        assert(values.drop_last() =~= before);
        assert forall|i: int| 0 <= i < ds.len() implies match #[trigger] ds[i] {
            Discriminant::Integer(n) => values[i] == n as int,
            Discriminant::Implicit => values[i] == if i == 0 { 0 } else { values[i - 1] + 1 },
            _ => false,
        } by {
            if i < ds.len() - 1 {
                assert(ds[i] == prefix[i]);
                assert(values[i] == before[i]);
                if i > 0 {
                    assert(values[i - 1] == before[i - 1]);
                }
            }
        }
    }
}

} // verus!
