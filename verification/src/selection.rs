//! The typed selection tree of a parsed query: construction from a syntax
//! tree under a recursion limit, conditional inclusion directives, and
//! fragment resolution at the spread site.
use vstd::prelude::*;
use crate::json::{assoc_get, assoc_lookup, Json};

verus! {

// ---------------------------------------------------------------------------
// Conditional inclusion directives
// ---------------------------------------------------------------------------

/// The `@skip` condition attached to a selection.
#[derive(Debug, PartialEq, Eq)]
pub enum Skip {
    Yes,
    No,
    Variable(String),
}

/// The mathematical shape of a [`Skip`].
#[verifier::ext_equal]
pub enum SkipV {
    Yes,
    No,
    Variable(Seq<char>),
}

impl View for Skip {
    type V = SkipV;

    open spec fn view(&self) -> SkipV {
        match self {
            Skip::Yes => SkipV::Yes,
            Skip::No => SkipV::No,
            Skip::Variable(name) => SkipV::Variable(name@),
        }
    }
}

/// The `@include` condition attached to a selection.
#[derive(Debug, PartialEq, Eq)]
pub enum Include {
    Yes,
    No,
    Variable(String),
}

/// The mathematical shape of an [`Include`].
#[verifier::ext_equal]
pub enum IncludeV {
    Yes,
    No,
    Variable(Seq<char>),
}

impl View for Include {
    type V = IncludeV;

    open spec fn view(&self) -> IncludeV {
        match self {
            Include::Yes => IncludeV::Yes,
            Include::No => IncludeV::No,
            Include::Variable(name) => IncludeV::Variable(name@),
        }
    }
}

impl Skip {
    /// Evaluation of the condition against a variable bag: defined only when
    /// the named variable is present and boolean-typed.
    pub open spec fn spec_should_skip(self, variables: Seq<(String, Json)>) -> Option<bool> {
        match self {
            Skip::Yes => Some(true),
            Skip::No => Some(false),
            Skip::Variable(name) => match assoc_get(variables, name@) {
                Some(v) => v.spec_as_bool(),
                None => None,
            },
        }
    }

    /// Evaluates the condition against `variables`.
    pub fn should_skip(&self, variables: &Vec<(String, Json)>) -> (r: Option<bool>)
        ensures
            r == self.spec_should_skip(variables@),
    {
        match self {
            Skip::Yes => Some(true),
            Skip::No => Some(false),
            Skip::Variable(name) => match assoc_lookup(variables, name) {
                Some(v) => v.as_bool(),
                None => None,
            },
        }
    }

    /// True exactly when the selection is dead whatever the variables say.
    pub fn statically_skipped(&self) -> (r: bool)
        ensures
            r == (self@ is Yes),
    {
        matches!(self, Skip::Yes)
    }
}

impl Include {
    /// Evaluation of the condition against a variable bag: defined only when
    /// the named variable is present and boolean-typed.
    pub open spec fn spec_should_include(self, variables: Seq<(String, Json)>) -> Option<bool> {
        match self {
            Include::Yes => Some(true),
            Include::No => Some(false),
            Include::Variable(name) => match assoc_get(variables, name@) {
                Some(v) => v.spec_as_bool(),
                None => None,
            },
        }
    }

    /// Evaluates the condition against `variables`.
    pub fn should_include(&self, variables: &Vec<(String, Json)>) -> (r: Option<bool>)
        ensures
            r == self.spec_should_include(variables@),
    {
        match self {
            Include::Yes => Some(true),
            Include::No => Some(false),
            Include::Variable(name) => match assoc_lookup(variables, name) {
                Some(v) => v.as_bool(),
                None => None,
            },
        }
    }

    /// True exactly when the selection is dead whatever the variables say.
    pub fn statically_skipped(&self) -> (r: bool)
        ensures
            r == (self@ is No),
    {
        matches!(self, Include::No)
    }
}

// ---------------------------------------------------------------------------
// The syntax tree this module consumes
// ---------------------------------------------------------------------------

/// A directive argument value, as far as this module reads it: a boolean
/// literal, a variable reference, or anything else.
#[derive(Debug, PartialEq, Eq)]
pub enum AstValue {
    Boolean(bool),
    Variable(String),
    Other,
}

/// One argument of a directive.
#[derive(Debug, PartialEq, Eq)]
pub struct Argument {
    pub name: String,
    pub value: AstValue,
}

/// One directive attached to a selection.
#[derive(Debug, PartialEq, Eq)]
pub struct Directive {
    pub name: String,
    pub arguments: Vec<Argument>,
}

/// A field selection in the syntax tree.
#[derive(Debug, PartialEq, Eq)]
pub struct AstField {
    pub name: String,
    pub alias: Option<String>,
    pub directives: Vec<Directive>,
    pub selection_set: Option<Vec<AstSelection>>,
}

/// An inline fragment in the syntax tree.
#[derive(Debug, PartialEq, Eq)]
pub struct AstInlineFragment {
    pub type_condition: Option<String>,
    pub directives: Vec<Directive>,
    pub selection_set: Vec<AstSelection>,
}

/// A fragment spread in the syntax tree.
#[derive(Debug, PartialEq, Eq)]
pub struct AstFragmentSpread {
    pub name: String,
    pub directives: Vec<Directive>,
}

/// One selection node of the syntax tree.
#[derive(Debug, PartialEq, Eq)]
pub enum AstSelection {
    Field(AstField),
    InlineFragment(AstInlineFragment),
    FragmentSpread(AstFragmentSpread),
}

// ---------------------------------------------------------------------------
// Directive parsing
// ---------------------------------------------------------------------------

/// What `parse_skip` returns: the condition carried by a `@skip(if: ...)`
/// directive, when `d` is one.
pub open spec fn spec_parse_skip(d: Directive) -> Option<Skip> {
    if d.name@ == "skip"@ {
        if d.arguments@.len() > 0 {
            let arg = d.arguments@[0];
            if arg.name@ == "if"@ {
                match arg.value {
                    AstValue::Boolean(b) => if b {
                        Some(Skip::Yes)
                    } else {
                        Some(Skip::No)
                    },
                    AstValue::Variable(v) => Some(Skip::Variable(v)),
                    AstValue::Other => None,
                }
            } else {
                None
            }
        } else {
            None
        }
    } else {
        None
    }
}

/// Reads a `@skip` directive. Only the first argument is consulted, and it
/// must be named `if`.
pub fn parse_skip(directive: &Directive) -> (r: Option<Skip>)
    ensures
        r == spec_parse_skip(*directive),
{
    let skip_name: String = "skip".to_owned();
    let if_name: String = "if".to_owned();
    if directive.name == skip_name {
        if directive.arguments.len() > 0 {
            let arg = &directive.arguments[0];
            if arg.name == if_name {
                match &arg.value {
                    AstValue::Boolean(b) => if *b {
                        Some(Skip::Yes)
                    } else {
                        Some(Skip::No)
                    },
                    AstValue::Variable(v) => Some(Skip::Variable(v.clone())),
                    AstValue::Other => None,
                }
            } else {
                None
            }
        } else {
            None
        }
    } else {
        None
    }
}

/// What `parse_include` returns: the condition carried by an
/// `@include(if: ...)` directive, when `d` is one.
pub open spec fn spec_parse_include(d: Directive) -> Option<Include> {
    if d.name@ == "include"@ {
        if d.arguments@.len() > 0 {
            let arg = d.arguments@[0];
            if arg.name@ == "if"@ {
                match arg.value {
                    AstValue::Boolean(b) => if b {
                        Some(Include::Yes)
                    } else {
                        Some(Include::No)
                    },
                    AstValue::Variable(v) => Some(Include::Variable(v)),
                    AstValue::Other => None,
                }
            } else {
                None
            }
        } else {
            None
        }
    } else {
        None
    }
}

/// Reads an `@include` directive. Only the first argument is consulted, and
/// it must be named `if`.
pub fn parse_include(directive: &Directive) -> (r: Option<Include>)
    ensures
        r == spec_parse_include(*directive),
{
    let include_name: String = "include".to_owned();
    let if_name: String = "if".to_owned();
    if directive.name == include_name {
        if directive.arguments.len() > 0 {
            let arg = &directive.arguments[0];
            if arg.name == if_name {
                match &arg.value {
                    AstValue::Boolean(b) => if *b {
                        Some(Include::Yes)
                    } else {
                        Some(Include::No)
                    },
                    AstValue::Variable(v) => Some(Include::Variable(v.clone())),
                    AstValue::Other => None,
                }
            } else {
                None
            }
        } else {
            None
        }
    } else {
        None
    }
}

/// The skip condition of a selection: the first directive that parses as
/// `@skip` wins; without one the selection is kept.
pub open spec fn spec_skip_of_directives(dirs: Seq<Directive>) -> Skip
    decreases dirs,
{
    if dirs.len() == 0 {
        Skip::No
    } else {
        match spec_parse_skip(dirs[0]) {
            Some(s) => s,
            None => spec_skip_of_directives(dirs.subrange(1, dirs.len() as int)),
        }
    }
}

/// The include condition of a selection: the first directive that parses as
/// `@include` wins; without one the selection is kept.
pub open spec fn spec_include_of_directives(dirs: Seq<Directive>) -> Include
    decreases dirs,
{
    if dirs.len() == 0 {
        Include::Yes
    } else {
        match spec_parse_include(dirs[0]) {
            Some(s) => s,
            None => spec_include_of_directives(dirs.subrange(1, dirs.len() as int)),
        }
    }
}

fn skip_of_directives(dirs: &Vec<Directive>) -> (r: Skip)
    ensures
        r == spec_skip_of_directives(dirs@),
{
    let n = dirs.len();
    let mut i: usize = 0;
    proof {
        assert(dirs@.subrange(0, n as int) =~= dirs@);
    }
    while i < n
        invariant
            n == dirs.len(),
            0 <= i <= n,
            spec_skip_of_directives(dirs@) == spec_skip_of_directives(
                dirs@.subrange(i as int, n as int),
            ),
        decreases n - i,
    {
        proof {
            assert(dirs@.subrange(i as int, n as int)[0] == dirs@[i as int]);
            assert(dirs@.subrange(i as int, n as int).subrange(
                1,
                dirs@.subrange(i as int, n as int).len() as int,
            ) =~= dirs@.subrange(i + 1, n as int));
        }
        if let Some(s) = parse_skip(&dirs[i]) {
            return s;
        }
        i += 1;
    }
    proof {
        assert(dirs@.subrange(i as int, n as int) =~= Seq::<Directive>::empty());
    }
    Skip::No
}

fn include_of_directives(dirs: &Vec<Directive>) -> (r: Include)
    ensures
        r == spec_include_of_directives(dirs@),
{
    let n = dirs.len();
    let mut i: usize = 0;
    proof {
        assert(dirs@.subrange(0, n as int) =~= dirs@);
    }
    while i < n
        invariant
            n == dirs.len(),
            0 <= i <= n,
            spec_include_of_directives(dirs@) == spec_include_of_directives(
                dirs@.subrange(i as int, n as int),
            ),
        decreases n - i,
    {
        proof {
            assert(dirs@.subrange(i as int, n as int)[0] == dirs@[i as int]);
            assert(dirs@.subrange(i as int, n as int).subrange(
                1,
                dirs@.subrange(i as int, n as int).len() as int,
            ) =~= dirs@.subrange(i + 1, n as int));
        }
        if let Some(s) = parse_include(&dirs[i]) {
            return s;
        }
        i += 1;
    }
    proof {
        assert(dirs@.subrange(i as int, n as int) =~= Seq::<Directive>::empty());
    }
    Include::Yes
}

// ---------------------------------------------------------------------------
// Field types and the schema
// ---------------------------------------------------------------------------

/// The type of a field: a named type possibly wrapped in list or non-null
/// markers, one of the builtin scalars, or an introspection type.
#[derive(Debug, PartialEq, Eq)]
pub enum FieldType {
    Named(String),
    List(Box<FieldType>),
    NonNull(Box<FieldType>),
    StringScalar,
    Int,
    Float,
    Boolean,
    Id,
    Introspection(String),
}

/// The mathematical shape of a [`FieldType`].
#[verifier::ext_equal]
pub enum FieldTypeV {
    Named(Seq<char>),
    List(Box<FieldTypeV>),
    NonNull(Box<FieldTypeV>),
    StringScalar,
    Int,
    Float,
    Boolean,
    Id,
    Introspection(Seq<char>),
}

pub open spec fn field_type_view(t: FieldType) -> FieldTypeV
    decreases t,
{
    match t {
        FieldType::Named(name) => FieldTypeV::Named(name@),
        FieldType::List(inner) => FieldTypeV::List(Box::new(field_type_view(*inner))),
        FieldType::NonNull(inner) => FieldTypeV::NonNull(Box::new(field_type_view(*inner))),
        FieldType::StringScalar => FieldTypeV::StringScalar,
        FieldType::Int => FieldTypeV::Int,
        FieldType::Float => FieldTypeV::Float,
        FieldType::Boolean => FieldTypeV::Boolean,
        FieldType::Id => FieldTypeV::Id,
        FieldType::Introspection(name) => FieldTypeV::Introspection(name@),
    }
}

impl View for FieldType {
    type V = FieldTypeV;

    open spec fn view(&self) -> FieldTypeV {
        field_type_view(*self)
    }
}

/// The named type under any list and non-null wrappers, if there is one.
pub open spec fn spec_inner_type_name(t: FieldTypeV) -> Option<Seq<char>>
    decreases t,
{
    match t {
        FieldTypeV::Named(name) => Some(name),
        FieldTypeV::Introspection(name) => Some(name),
        FieldTypeV::List(inner) => spec_inner_type_name(*inner),
        FieldTypeV::NonNull(inner) => spec_inner_type_name(*inner),
        _ => None,
    }
}

/// True of the builtin scalars, whose values carry no sub-selection.
pub open spec fn spec_is_builtin_scalar(t: FieldTypeV) -> bool {
    match t {
        FieldTypeV::StringScalar => true,
        FieldTypeV::Int => true,
        FieldTypeV::Float => true,
        FieldTypeV::Boolean => true,
        FieldTypeV::Id => true,
        _ => false,
    }
}

impl FieldType {
    /// The named type stripped of list and non-null wrappers, if any.
    pub fn inner_type_name(&self) -> (r: Option<&String>)
        ensures
            match r {
                Some(name) => spec_inner_type_name(self@) == Some(name@),
                None => spec_inner_type_name(self@) is None,
            },
        decreases *self,
    {
        match self {
            FieldType::Named(name) => Some(name),
            FieldType::Introspection(name) => Some(name),
            FieldType::List(inner) => inner.inner_type_name(),
            FieldType::NonNull(inner) => inner.inner_type_name(),
            _ => None,
        }
    }

    /// True of the builtin scalars, whose values carry no sub-selection.
    pub fn is_builtin_scalar(&self) -> (r: bool)
        ensures
            r == spec_is_builtin_scalar(self@),
    {
        matches!(
            self,
            FieldType::StringScalar | FieldType::Int | FieldType::Float | FieldType::Boolean
                | FieldType::Id
        )
    }

    /// An owned copy, equal to `self`.
    pub fn deep_clone(&self) -> (r: FieldType)
        ensures
            r == *self,
        decreases *self,
    {
        match self {
            FieldType::Named(name) => FieldType::Named(name.clone()),
            FieldType::List(inner) => FieldType::List(Box::new(inner.deep_clone())),
            FieldType::NonNull(inner) => FieldType::NonNull(Box::new(inner.deep_clone())),
            FieldType::StringScalar => FieldType::StringScalar,
            FieldType::Int => FieldType::Int,
            FieldType::Float => FieldType::Float,
            FieldType::Boolean => FieldType::Boolean,
            FieldType::Id => FieldType::Id,
            FieldType::Introspection(name) => FieldType::Introspection(name.clone()),
        }
    }
}

/// The fields a composite type exposes, by name.
#[derive(Debug, PartialEq, Eq)]
pub struct TypeDef {
    pub fields: Vec<(String, FieldType)>,
}

/// The part of the schema that selection construction consults: object types
/// and interfaces, each exposing named fields.
#[derive(Debug, PartialEq, Eq)]
pub struct Schema {
    pub object_types: Vec<(String, TypeDef)>,
    pub interfaces: Vec<(String, TypeDef)>,
}

/// A failure of selection construction.
#[derive(Debug, PartialEq, Eq)]
pub enum SpecError {
    /// The syntax tree nested deeper than the recursion limit.
    RecursionLimitExceeded,
    /// A field was requested on a type that does not expose it, or a
    /// fragment was applied where no named type is in scope; the offending
    /// enclosing type is carried along.
    InvalidType(FieldType),
}

/// The mathematical shape of a [`SpecError`].
#[verifier::ext_equal]
pub enum SpecErrorV {
    RecursionLimitExceeded,
    InvalidType(FieldTypeV),
}

pub open spec fn spec_error_view(e: SpecError) -> SpecErrorV {
    match e {
        SpecError::RecursionLimitExceeded => SpecErrorV::RecursionLimitExceeded,
        SpecError::InvalidType(t) => SpecErrorV::InvalidType(field_type_view(t)),
    }
}

/// The field named `field_name` on the type named `inner_name`: looked up
/// first among the object types, then among the interfaces.
pub open spec fn spec_schema_field(
    schema: Schema,
    inner_name: Seq<char>,
    field_name: Seq<char>,
) -> Option<FieldType> {
    let from_objects = match assoc_get(schema.object_types@, inner_name) {
        Some(td) => assoc_get(td.fields@, field_name),
        None => None,
    };
    match from_objects {
        Some(ft) => Some(ft),
        None => match assoc_get(schema.interfaces@, inner_name) {
            Some(td) => assoc_get(td.fields@, field_name),
            None => None,
        },
    }
}

fn schema_field<'a>(schema: &'a Schema, inner_name: &String, field_name: &String) -> (r: Option<
    &'a FieldType,
>)
    ensures
        match r {
            Some(ft) => spec_schema_field(*schema, inner_name@, field_name@) == Some(*ft),
            None => spec_schema_field(*schema, inner_name@, field_name@) is None,
        },
{
    let from_objects = match assoc_lookup(&schema.object_types, inner_name) {
        Some(td) => assoc_lookup(&td.fields, field_name),
        None => None,
    };
    match from_objects {
        Some(ft) => Some(ft),
        None => match assoc_lookup(&schema.interfaces, inner_name) {
            Some(td) => assoc_lookup(&td.fields, field_name),
            None => None,
        },
    }
}

/// The type of the field named `field_name` selected under `current_type`:
/// the introspection special cases bypass the schema; otherwise the field is
/// looked up on the enclosing type's inner named type.
pub open spec fn spec_resolve_field_type(
    field_name: Seq<char>,
    current_type: FieldTypeV,
    schema: Schema,
) -> Result<FieldTypeV, SpecErrorV> {
    if field_name == "__typename"@ {
        Ok(FieldTypeV::StringScalar)
    } else if field_name == "__schema"@ {
        Ok(FieldTypeV::Introspection("__Schema"@))
    } else if field_name == "__type"@ {
        Ok(FieldTypeV::Introspection("__Type"@))
    } else {
        match spec_inner_type_name(current_type) {
            Some(inner_name) => match spec_schema_field_v(schema, inner_name, field_name) {
                Some(ft) => Ok(ft),
                None => Err(SpecErrorV::InvalidType(current_type)),
            },
            None => Err(SpecErrorV::InvalidType(current_type)),
        }
    }
}

pub open spec fn spec_schema_field_v(
    schema: Schema,
    inner_name: Seq<char>,
    field_name: Seq<char>,
) -> Option<FieldTypeV> {
    match spec_schema_field(schema, inner_name, field_name) {
        Some(ft) => Some(field_type_view(ft)),
        None => None,
    }
}

// ---------------------------------------------------------------------------
// The selection tree
// ---------------------------------------------------------------------------

/// A field selection with its resolved type and directive conditions.
#[derive(Debug, PartialEq, Eq)]
pub struct FieldSelection {
    pub name: String,
    pub alias: Option<String>,
    pub selection_set: Option<Vec<Selection>>,
    pub field_type: FieldType,
    pub skip: Skip,
    pub incl: Include,
}

/// An inline fragment with its resolved type condition.
#[derive(Debug, PartialEq, Eq)]
pub struct InlineFragmentSelection {
    pub type_condition: String,
    pub skip: Skip,
    pub incl: Include,
    pub known_type: bool,
    pub selection_set: Vec<Selection>,
}

/// A fragment spread: only the spread site is recorded; the body is resolved
/// elsewhere.
#[derive(Debug, PartialEq, Eq)]
pub struct FragmentSpreadSelection {
    pub name: String,
    pub known_type: Option<String>,
    pub skip: Skip,
    pub incl: Include,
}

/// One node of the directive-resolved selection tree.
#[derive(Debug, PartialEq, Eq)]
pub enum Selection {
    Field(FieldSelection),
    InlineFragment(InlineFragmentSelection),
    FragmentSpread(FragmentSpreadSelection),
}

/// The mathematical shape of a [`FieldSelection`].
#[verifier::ext_equal]
pub struct FieldSelectionV {
    pub name: Seq<char>,
    pub alias: Option<Seq<char>>,
    pub selection_set: Option<Seq<SelectionV>>,
    pub field_type: FieldTypeV,
    pub skip: SkipV,
    pub incl: IncludeV,
}

/// The mathematical shape of an [`InlineFragmentSelection`].
#[verifier::ext_equal]
pub struct InlineFragmentSelectionV {
    pub type_condition: Seq<char>,
    pub skip: SkipV,
    pub incl: IncludeV,
    pub known_type: bool,
    pub selection_set: Seq<SelectionV>,
}

/// The mathematical shape of a [`FragmentSpreadSelection`].
#[verifier::ext_equal]
pub struct FragmentSpreadSelectionV {
    pub name: Seq<char>,
    pub known_type: Option<Seq<char>>,
    pub skip: SkipV,
    pub incl: IncludeV,
}

/// The mathematical shape of a [`Selection`].
#[verifier::ext_equal]
pub enum SelectionV {
    Field(FieldSelectionV),
    InlineFragment(InlineFragmentSelectionV),
    FragmentSpread(FragmentSpreadSelectionV),
}

pub open spec fn opt_string_view(s: Option<String>) -> Option<Seq<char>> {
    match s {
        Some(x) => Some(x@),
        None => None,
    }
}

pub open spec fn selection_view(s: Selection) -> SelectionV
    decreases s,
{
    match s {
        Selection::Field(f) => SelectionV::Field(
            FieldSelectionV {
                name: f.name@,
                alias: opt_string_view(f.alias),
                selection_set: match f.selection_set {
                    Some(children) => Some(selection_seq_view(children@)),
                    None => None,
                },
                field_type: field_type_view(f.field_type),
                skip: f.skip@,
                incl: f.incl@,
            },
        ),
        Selection::InlineFragment(g) => SelectionV::InlineFragment(
            InlineFragmentSelectionV {
                type_condition: g.type_condition@,
                skip: g.skip@,
                incl: g.incl@,
                known_type: g.known_type,
                selection_set: selection_seq_view(g.selection_set@),
            },
        ),
        Selection::FragmentSpread(sp) => SelectionV::FragmentSpread(
            FragmentSpreadSelectionV {
                name: sp.name@,
                known_type: opt_string_view(sp.known_type),
                skip: sp.skip@,
                incl: sp.incl@,
            },
        ),
    }
}

pub open spec fn selection_seq_view(ss: Seq<Selection>) -> Seq<SelectionV>
    decreases ss,
{
    if ss.len() == 0 {
        Seq::empty()
    } else {
        seq![selection_view(ss[0])] + selection_seq_view(ss.subrange(1, ss.len() as int))
    }
}

impl View for Selection {
    type V = SelectionV;

    open spec fn view(&self) -> SelectionV {
        selection_view(*self)
    }
}

pub proof fn lemma_selection_seq_view(ss: Seq<Selection>)
    ensures
        selection_seq_view(ss).len() == ss.len(),
        forall|i: int| 0 <= i < ss.len() ==> selection_seq_view(ss)[i] == selection_view(ss[i]),
    decreases ss,
{
    if ss.len() > 0 {
        lemma_selection_seq_view(ss.subrange(1, ss.len() as int));
    }
}

proof fn lemma_selection_seq_view_push(ss: Seq<Selection>, x: Selection)
    ensures
        selection_seq_view(ss.push(x)) == selection_seq_view(ss).push(selection_view(x)),
{
    lemma_selection_seq_view(ss.push(x));
    lemma_selection_seq_view(ss);
    assert(selection_seq_view(ss.push(x)) =~= selection_seq_view(ss).push(selection_view(x)));
}

fn resolve_field_type(field_name: &String, current_type: &FieldType, schema: &Schema) -> (r:
    Result<FieldType, SpecError>)
    ensures
        match r {
            Ok(ft) => spec_resolve_field_type(field_name@, current_type@, *schema) == Ok::<
                FieldTypeV,
                SpecErrorV,
            >(ft@),
            Err(e) => spec_resolve_field_type(field_name@, current_type@, *schema) == Err::<
                FieldTypeV,
                SpecErrorV,
            >(spec_error_view(e)),
        },
{
    let typename_lit: String = "__typename".to_owned();
    let schema_lit: String = "__schema".to_owned();
    let type_lit: String = "__type".to_owned();
    if *field_name == typename_lit {
        Ok(FieldType::StringScalar)
    } else if *field_name == schema_lit {
        Ok(FieldType::Introspection("__Schema".to_owned()))
    } else if *field_name == type_lit {
        Ok(FieldType::Introspection("__Type".to_owned()))
    } else {
        match current_type.inner_type_name() {
            Some(inner_name) => match schema_field(schema, inner_name, field_name) {
                Some(ft) => Ok(ft.deep_clone()),
                None => Err(SpecError::InvalidType(current_type.deep_clone())),
            },
            None => Err(SpecError::InvalidType(current_type.deep_clone())),
        }
    }
}

// ---------------------------------------------------------------------------
// Construction from the syntax tree
// ---------------------------------------------------------------------------

/// The recursion limit on selection construction: deeper syntax trees are
/// rejected rather than risking the stack.
pub const RECURSION_LIMIT: usize = 512;

/// The type condition of an inline fragment: the one the syntax tree gives,
/// or the enclosing type's inner named type when the tree omits it.
pub open spec fn spec_type_condition(tc: Option<String>, current_type: FieldTypeV) -> Option<
    Seq<char>,
> {
    match tc {
        Some(s) => Some(s@),
        None => spec_inner_type_name(current_type),
    }
}

/// What `Selection::from_ast` returns, node by node. `Ok(None)` means the
/// node is statically skipped and contributes nothing.
pub open spec fn spec_from_ast(
    sel: AstSelection,
    current_type: FieldTypeV,
    schema: Schema,
    count: int,
) -> Result<Option<SelectionV>, SpecErrorV>
    decreases sel,
{
    if count > 512 {
        Err(SpecErrorV::RecursionLimitExceeded)
    } else {
        match sel {
            AstSelection::Field(f) => spec_from_ast_field(f, current_type, schema, count + 1),
            AstSelection::InlineFragment(g) => spec_from_ast_inline(
                g,
                current_type,
                schema,
                count + 1,
            ),
            AstSelection::FragmentSpread(sp) => spec_from_ast_spread(sp, current_type),
        }
    }
}

pub open spec fn spec_from_ast_field(
    f: AstField,
    current_type: FieldTypeV,
    schema: Schema,
    count: int,
) -> Result<Option<SelectionV>, SpecErrorV>
    decreases f,
{
    let skip = spec_skip_of_directives(f.directives@);
    if skip@ is Yes {
        Ok(None)
    } else {
        let incl = spec_include_of_directives(f.directives@);
        if incl@ is No {
            Ok(None)
        } else {
            match spec_resolve_field_type(f.name@, current_type, schema) {
                Err(e) => Err(e),
                Ok(ft) => if spec_is_builtin_scalar(ft) {
                    Ok(
                        Some(
                            SelectionV::Field(
                                FieldSelectionV {
                                    name: f.name@,
                                    alias: opt_string_view(f.alias),
                                    selection_set: None,
                                    field_type: ft,
                                    skip: skip@,
                                    incl: incl@,
                                },
                            ),
                        ),
                    )
                } else {
                    match f.selection_set {
                        None => Ok(
                            Some(
                                SelectionV::Field(
                                    FieldSelectionV {
                                        name: f.name@,
                                        alias: opt_string_view(f.alias),
                                        selection_set: None,
                                        field_type: ft,
                                        skip: skip@,
                                        incl: incl@,
                                    },
                                ),
                            ),
                        ),
                        Some(children) => match spec_from_ast_seq(
                            children@,
                            ft,
                            schema,
                            count,
                        ) {
                            Err(e) => Err(e),
                            Ok(subs) => Ok(
                                Some(
                                    SelectionV::Field(
                                        FieldSelectionV {
                                            name: f.name@,
                                            alias: opt_string_view(f.alias),
                                            selection_set: Some(subs),
                                            field_type: ft,
                                            skip: skip@,
                                            incl: incl@,
                                        },
                                    ),
                                ),
                            ),
                        },
                    }
                },
            }
        }
    }
}

pub open spec fn spec_from_ast_inline(
    g: AstInlineFragment,
    current_type: FieldTypeV,
    schema: Schema,
    count: int,
) -> Result<Option<SelectionV>, SpecErrorV>
    decreases g,
{
    let skip = spec_skip_of_directives(g.directives@);
    if skip@ is Yes {
        Ok(None)
    } else {
        let incl = spec_include_of_directives(g.directives@);
        if incl@ is No {
            Ok(None)
        } else {
            match spec_type_condition(g.type_condition, current_type) {
                None => Err(SpecErrorV::InvalidType(current_type)),
                Some(tc) => match spec_from_ast_seq(
                    g.selection_set@,
                    FieldTypeV::Named(tc),
                    schema,
                    count,
                ) {
                    Err(e) => Err(e),
                    Ok(subs) => Ok(
                        Some(
                            SelectionV::InlineFragment(
                                InlineFragmentSelectionV {
                                    type_condition: tc,
                                    skip: skip@,
                                    incl: incl@,
                                    known_type: spec_inner_type_name(current_type) == Some(tc),
                                    selection_set: subs,
                                },
                            ),
                        ),
                    ),
                },
            }
        }
    }
}

pub open spec fn spec_from_ast_spread(sp: AstFragmentSpread, current_type: FieldTypeV) -> Result<
    Option<SelectionV>,
    SpecErrorV,
> {
    let skip = spec_skip_of_directives(sp.directives@);
    if skip@ is Yes {
        Ok(None)
    } else {
        let incl = spec_include_of_directives(sp.directives@);
        if incl@ is No {
            Ok(None)
        } else {
            Ok(
                Some(
                    SelectionV::FragmentSpread(
                        FragmentSpreadSelectionV {
                            name: sp.name@,
                            known_type: spec_inner_type_name(current_type),
                            skip: skip@,
                            incl: incl@,
                        },
                    ),
                ),
            )
        }
    }
}

/// What a whole selection set becomes: statically skipped nodes are dropped,
/// and the first failing node decides the error.
pub open spec fn spec_from_ast_seq(
    sels: Seq<AstSelection>,
    current_type: FieldTypeV,
    schema: Schema,
    count: int,
) -> Result<Seq<SelectionV>, SpecErrorV>
    decreases sels,
{
    if sels.len() == 0 {
        Ok(Seq::empty())
    } else {
        match spec_from_ast(sels[0], current_type, schema, count) {
            Err(e) => Err(e),
            Ok(None) => spec_from_ast_seq(
                sels.subrange(1, sels.len() as int),
                current_type,
                schema,
                count,
            ),
            Ok(Some(x)) => match spec_from_ast_seq(
                sels.subrange(1, sels.len() as int),
                current_type,
                schema,
                count,
            ) {
                Err(e) => Err(e),
                Ok(rest) => Ok(seq![x] + rest),
            },
        }
    }
}

/// `prefix` prepended to a pending selection-set result.
pub open spec fn combine_prefix(
    prefix: Seq<SelectionV>,
    rest: Result<Seq<SelectionV>, SpecErrorV>,
) -> Result<Seq<SelectionV>, SpecErrorV> {
    match rest {
        Err(e) => Err(e),
        Ok(tail) => Ok(prefix + tail),
    }
}

/// The mathematical shape of a `from_ast` result.
pub open spec fn from_ast_result_view(r: Result<Option<Selection>, SpecError>) -> Result<
    Option<SelectionV>,
    SpecErrorV,
> {
    match r {
        Ok(None) => Ok(None),
        Ok(Some(s)) => Ok(Some(selection_view(s))),
        Err(e) => Err(spec_error_view(e)),
    }
}

fn clone_opt_string(s: &Option<String>) -> (r: Option<String>)
    ensures
        r == *s,
{
    match s {
        Some(x) => Some(x.clone()),
        None => None,
    }
}

proof fn lemma_combine_prefix_empty(r: Result<Seq<SelectionV>, SpecErrorV>)
    ensures
        combine_prefix(Seq::empty(), r) == r,
{
    match r {
        Ok(tail) => {
            assert(Seq::<SelectionV>::empty() + tail =~= tail);
        },
        Err(_) => {},
    }
}

proof fn lemma_combine_prefix_step(
    prefix: Seq<SelectionV>,
    x: SelectionV,
    r: Result<Seq<SelectionV>, SpecErrorV>,
)
    ensures
        combine_prefix(prefix, combine_prefix(seq![x], r)) == combine_prefix(prefix.push(x), r),
{
    match r {
        Ok(tail) => {
            assert(prefix + (seq![x] + tail) =~= prefix.push(x) + tail);
        },
        Err(_) => {},
    }
}

proof fn lemma_combine_prefix_whole(prefix: Seq<SelectionV>)
    ensures
        combine_prefix(prefix, Ok(Seq::empty())) == Ok::<Seq<SelectionV>, SpecErrorV>(prefix),
{
    assert(prefix + Seq::<SelectionV>::empty() =~= prefix);
}

/// Builds the selections of one selection set, dropping statically skipped
/// nodes and stopping at the first failure.
fn from_ast_children(
    children: &Vec<AstSelection>,
    current_type: &FieldType,
    schema: &Schema,
    count: usize,
) -> (res: Result<Vec<Selection>, SpecError>)
    ensures
        match res {
            Ok(subs) => spec_from_ast_seq(children@, current_type@, *schema, count as int)
                == Ok::<Seq<SelectionV>, SpecErrorV>(selection_seq_view(subs@)),
            Err(e) => spec_from_ast_seq(children@, current_type@, *schema, count as int)
                == Err::<Seq<SelectionV>, SpecErrorV>(spec_error_view(e)),
        },
    decreases *children,
{
    let n = children.len();
    let mut subs: Vec<Selection> = Vec::new();
    let mut i: usize = 0;
    proof {
        assert(children@.subrange(0, n as int) =~= children@);
        lemma_combine_prefix_empty(
            spec_from_ast_seq(children@, current_type@, *schema, count as int),
        );
    }
    while i < n
        invariant
            n == children.len(),
            0 <= i <= n,
            spec_from_ast_seq(children@, current_type@, *schema, count as int) == combine_prefix(
                selection_seq_view(subs@),
                spec_from_ast_seq(
                    children@.subrange(i as int, n as int),
                    current_type@,
                    *schema,
                    count as int,
                ),
            ),
        decreases n - i,
    {
        proof {
            assert(children@.subrange(i as int, n as int)[0] == children@[i as int]);
            assert(children@.subrange(i as int, n as int).subrange(
                1,
                children@.subrange(i as int, n as int).len() as int,
            ) =~= children@.subrange(i + 1, n as int));
            assert(decreases_to!(*children => children@));
            assert(decreases_to!(children@ => children@[i as int]));
        }
        match Selection::from_ast(&children[i], current_type, schema, count) {
            Err(e) => {
                return Err(e);
            },
            Ok(None) => {},
            Ok(Some(x)) => {
                proof {
                    lemma_combine_prefix_step(
                        selection_seq_view(subs@),
                        selection_view(x),
                        spec_from_ast_seq(
                            children@.subrange(i + 1, n as int),
                            current_type@,
                            *schema,
                            count as int,
                        ),
                    );
                    lemma_selection_seq_view_push(subs@, x);
                }
                subs.push(x);
            },
        }
        i += 1;
    }
    proof {
        assert(children@.subrange(n as int, n as int) =~= Seq::<AstSelection>::empty());
        lemma_combine_prefix_whole(selection_seq_view(subs@));
    }
    Ok(subs)
}

impl Selection {
    /// Builds the selection node for one node of the syntax tree, under the
    /// enclosing `current_type`, at recursion depth `count`. Returns
    /// `Ok(None)` when the node is statically dead, and fails with
    /// `RecursionLimitExceeded` when the tree nests too deeply, before any
    /// child is visited.
    pub fn from_ast(
        selection: &AstSelection,
        current_type: &FieldType,
        schema: &Schema,
        count: usize,
    ) -> (res: Result<Option<Selection>, SpecError>)
        ensures
            from_ast_result_view(res) == spec_from_ast(
                *selection,
                current_type@,
                *schema,
                count as int,
            ),
        decreases *selection,
    {
        if count > RECURSION_LIMIT {
            return Err(SpecError::RecursionLimitExceeded);
        }
        let next_count = count + 1;
        match selection {
            AstSelection::Field(f) => {
                let skip = skip_of_directives(&f.directives);
                if skip.statically_skipped() {
                    return Ok(None);
                }
                let incl = include_of_directives(&f.directives);
                if incl.statically_skipped() {
                    return Ok(None);
                }
                let field_type = match resolve_field_type(&f.name, current_type, schema) {
                    Ok(ft) => ft,
                    Err(e) => {
                        return Err(e);
                    },
                };
                let selection_set: Option<Vec<Selection>> = if field_type.is_builtin_scalar() {
                    None
                } else {
                    match &f.selection_set {
                        None => None,
                        Some(children) => {
                            proof {
                                assert(decreases_to!(*selection => selection->Field_0));
                                assert(decreases_to!(
                                    selection->Field_0 => selection->Field_0.selection_set));
                                assert(decreases_to!(
                                    selection->Field_0.selection_set
                                        => selection->Field_0.selection_set->0));
                            }
                            match from_ast_children(children, &field_type, schema, next_count) {
                                Ok(subs) => Some(subs),
                                Err(e) => {
                                    return Err(e);
                                },
                            }
                        },
                    }
                };
                Ok(
                    Some(
                        Selection::Field(
                            FieldSelection {
                                name: f.name.clone(),
                                alias: clone_opt_string(&f.alias),
                                selection_set,
                                field_type,
                                skip,
                                incl,
                            },
                        ),
                    ),
                )
            },
            AstSelection::InlineFragment(g) => {
                let skip = skip_of_directives(&g.directives);
                if skip.statically_skipped() {
                    return Ok(None);
                }
                let incl = include_of_directives(&g.directives);
                if incl.statically_skipped() {
                    return Ok(None);
                }
                let type_condition: String = match &g.type_condition {
                    Some(tc) => tc.clone(),
                    None => match current_type.inner_type_name() {
                        Some(name) => name.clone(),
                        None => {
                            return Err(SpecError::InvalidType(current_type.deep_clone()));
                        },
                    },
                };
                let fragment_type = FieldType::Named(type_condition.clone());
                proof {
                    assert(decreases_to!(*selection => selection->InlineFragment_0));
                    assert(decreases_to!(
                        selection->InlineFragment_0
                            => selection->InlineFragment_0.selection_set));
                }
                let selection_set = match from_ast_children(
                    &g.selection_set,
                    &fragment_type,
                    schema,
                    next_count,
                ) {
                    Ok(subs) => subs,
                    Err(e) => {
                        return Err(e);
                    },
                };
                let known_type = match current_type.inner_type_name() {
                    Some(name) => *name == type_condition,
                    None => false,
                };
                Ok(
                    Some(
                        Selection::InlineFragment(
                            InlineFragmentSelection {
                                type_condition,
                                skip,
                                incl,
                                known_type,
                                selection_set,
                            },
                        ),
                    ),
                )
            },
            AstSelection::FragmentSpread(sp) => {
                let skip = skip_of_directives(&sp.directives);
                if skip.statically_skipped() {
                    return Ok(None);
                }
                let incl = include_of_directives(&sp.directives);
                if incl.statically_skipped() {
                    return Ok(None);
                }
                let known_type = match current_type.inner_type_name() {
                    Some(name) => Some(name.clone()),
                    None => None,
                };
                Ok(
                    Some(
                        Selection::FragmentSpread(
                            FragmentSpreadSelection { name: sp.name.clone(), known_type, skip, incl },
                        ),
                    ),
                )
            },
        }
    }
}

// ---------------------------------------------------------------------------
// What holds of every constructed tree
// ---------------------------------------------------------------------------

/// Well-formedness of a constructed selection: a field whose type is a
/// builtin scalar never carries a child selection set, at any depth.
pub open spec fn selection_wf(s: SelectionV) -> bool
    decreases s,
{
    match s {
        SelectionV::Field(f) => {
            &&& (spec_is_builtin_scalar(f.field_type) ==> f.selection_set is None)
            &&& match f.selection_set {
                Some(subs) => selection_seq_wf(subs),
                None => true,
            }
        },
        SelectionV::InlineFragment(g) => selection_seq_wf(g.selection_set),
        SelectionV::FragmentSpread(_) => true,
    }
}

pub open spec fn selection_seq_wf(ss: Seq<SelectionV>) -> bool
    decreases ss,
{
    if ss.len() == 0 {
        true
    } else {
        selection_wf(ss[0]) && selection_seq_wf(ss.subrange(1, ss.len() as int))
    }
}

proof fn lemma_selection_seq_wf_concat(a: Seq<SelectionV>, b: Seq<SelectionV>)
    ensures
        selection_seq_wf(a + b) == (selection_seq_wf(a) && selection_seq_wf(b)),
    decreases a,
{
    if a.len() == 0 {
        assert(a + b =~= b);
    } else {
        assert((a + b)[0] == a[0]);
        assert((a + b).subrange(1, (a + b).len() as int) =~= a.subrange(1, a.len() as int) + b);
        lemma_selection_seq_wf_concat(a.subrange(1, a.len() as int), b);
    }
}

/// Whatever the syntax tree, the enclosing type, the schema and the depth, a
/// selection that construction returns is well formed: in particular, a
/// field resolved to a builtin scalar has no child selection set.
pub proof fn lemma_from_ast_wf(
    sel: AstSelection,
    current_type: FieldTypeV,
    schema: Schema,
    count: int,
)
    ensures
        match spec_from_ast(sel, current_type, schema, count) {
            Ok(Some(s)) => selection_wf(s),
            _ => true,
        },
    decreases sel,
{
    if count > 512 {
    } else {
        match sel {
            AstSelection::Field(f) => {
                lemma_from_ast_field_wf(f, current_type, schema, count + 1);
            },
            AstSelection::InlineFragment(g) => {
                lemma_from_ast_inline_wf(g, current_type, schema, count + 1);
            },
            AstSelection::FragmentSpread(_) => {},
        }
    }
}

proof fn lemma_from_ast_field_wf(f: AstField, current_type: FieldTypeV, schema: Schema, count: int)
    ensures
        match spec_from_ast_field(f, current_type, schema, count) {
            Ok(Some(s)) => selection_wf(s),
            _ => true,
        },
    decreases f,
{
    let skip = spec_skip_of_directives(f.directives@);
    let incl = spec_include_of_directives(f.directives@);
    if !(skip@ is Yes) && !(incl@ is No) {
        match spec_resolve_field_type(f.name@, current_type, schema) {
            Err(_) => {},
            Ok(ft) => {
                if !spec_is_builtin_scalar(ft) {
                    match f.selection_set {
                        None => {},
                        Some(children) => {
                            lemma_from_ast_seq_wf(children@, ft, schema, count);
                        },
                    }
                }
            },
        }
    }
}

proof fn lemma_from_ast_inline_wf(
    g: AstInlineFragment,
    current_type: FieldTypeV,
    schema: Schema,
    count: int,
)
    ensures
        match spec_from_ast_inline(g, current_type, schema, count) {
            Ok(Some(s)) => selection_wf(s),
            _ => true,
        },
    decreases g,
{
    let skip = spec_skip_of_directives(g.directives@);
    let incl = spec_include_of_directives(g.directives@);
    if !(skip@ is Yes) && !(incl@ is No) {
        match spec_type_condition(g.type_condition, current_type) {
            None => {},
            Some(tc) => {
                lemma_from_ast_seq_wf(g.selection_set@, FieldTypeV::Named(tc), schema, count);
            },
        }
    }
}

proof fn lemma_from_ast_seq_wf(
    sels: Seq<AstSelection>,
    current_type: FieldTypeV,
    schema: Schema,
    count: int,
)
    ensures
        match spec_from_ast_seq(sels, current_type, schema, count) {
            Ok(subs) => selection_seq_wf(subs),
            Err(_) => true,
        },
    decreases sels,
{
    if sels.len() == 0 {
    } else {
        let rest = sels.subrange(1, sels.len() as int);
        lemma_from_ast_wf(sels[0], current_type, schema, count);
        lemma_from_ast_seq_wf(rest, current_type, schema, count);
        match spec_from_ast(sels[0], current_type, schema, count) {
            Err(_) => {},
            Ok(None) => {},
            Ok(Some(x)) => {
                match spec_from_ast_seq(rest, current_type, schema, count) {
                    Err(_) => {},
                    Ok(tail) => {
                        assert(selection_wf(x));
                        assert(seq![x].subrange(1, 1) =~= Seq::<SelectionV>::empty());
                        assert(selection_seq_wf(Seq::<SelectionV>::empty()));
                        assert(seq![x][0] == x);
                        assert(selection_seq_wf(seq![x]));
                        lemma_selection_seq_wf_concat(seq![x], tail);
                    },
                }
            },
        }
    }
}

// ---------------------------------------------------------------------------
// The recursion limit
// ---------------------------------------------------------------------------

/// Construction called beyond the recursion limit fails at once, whatever
/// the node, the type, the schema or the rest of the tree.
pub proof fn lemma_from_ast_over_limit(
    sel: AstSelection,
    current_type: FieldTypeV,
    schema: Schema,
    count: int,
)
    requires
        count > 512,
    ensures
        spec_from_ast(sel, current_type, schema, count) == Err::<
            Option<SelectionV>,
            SpecErrorV,
        >(SpecErrorV::RecursionLimitExceeded),
{
}

/// A tree made only of inline fragments, each with an explicit type
/// condition and no directives: the shape on which the recursion limit
/// alone decides the outcome, since nothing in such a tree is statically
/// skipped and nothing needs the schema.
pub open spec fn fragment_tree(sel: AstSelection) -> bool
    decreases sel,
{
    match sel {
        AstSelection::InlineFragment(g) => {
            &&& g.type_condition is Some
            &&& g.directives@.len() == 0
            &&& fragment_tree_seq(g.selection_set@)
        },
        _ => false,
    }
}

pub open spec fn fragment_tree_seq(sels: Seq<AstSelection>) -> bool
    decreases sels,
{
    if sels.len() == 0 {
        true
    } else {
        fragment_tree(sels[0]) && fragment_tree_seq(sels.subrange(1, sels.len() as int))
    }
}

/// The nesting depth of a tree: a childless node counts one.
pub open spec fn tree_height(sel: AstSelection) -> nat
    decreases sel,
{
    match sel {
        AstSelection::Field(f) => 1 + (match f.selection_set {
            Some(children) => tree_seq_height(children@),
            None => 0,
        }),
        AstSelection::InlineFragment(g) => 1 + tree_seq_height(g.selection_set@),
        AstSelection::FragmentSpread(_) => 1,
    }
}

pub open spec fn tree_seq_height(sels: Seq<AstSelection>) -> nat
    decreases sels,
{
    if sels.len() == 0 {
        0
    } else {
        let rest = tree_seq_height(sels.subrange(1, sels.len() as int));
        if tree_height(sels[0]) >= rest {
            tree_height(sels[0])
        } else {
            rest
        }
    }
}

/// On a tree of inline fragments the recursion limit decides exactly:
/// construction at depth `count` fails with `RecursionLimitExceeded` when
/// and only when the tree nests past the limit, however it branches; a
/// tree within the limit always yields a selection.
pub proof fn lemma_fragment_tree_limit(
    sel: AstSelection,
    current_type: FieldTypeV,
    schema: Schema,
    count: int,
)
    requires
        fragment_tree(sel),
        count >= 0,
    ensures
        count + tree_height(sel) > 513 ==> spec_from_ast(sel, current_type, schema, count)
            == Err::<Option<SelectionV>, SpecErrorV>(SpecErrorV::RecursionLimitExceeded),
        count + tree_height(sel) <= 513 ==> spec_from_ast(sel, current_type, schema, count)
            matches Ok(Some(_)),
    decreases sel,
{
    if count > 512 {
    } else {
        let g = sel->InlineFragment_0;
        assert(spec_skip_of_directives(g.directives@) == Skip::No);
        assert(spec_include_of_directives(g.directives@) == Include::Yes);
        let tc = spec_type_condition(g.type_condition, current_type)->0;
        lemma_fragment_tree_seq_limit(
            g.selection_set@,
            FieldTypeV::Named(tc),
            schema,
            count + 1,
        );
    }
}

proof fn lemma_fragment_tree_seq_limit(
    sels: Seq<AstSelection>,
    current_type: FieldTypeV,
    schema: Schema,
    count: int,
)
    requires
        fragment_tree_seq(sels),
        0 <= count <= 513,
    ensures
        count + tree_seq_height(sels) > 513 ==> spec_from_ast_seq(sels, current_type, schema, count)
            == Err::<Seq<SelectionV>, SpecErrorV>(SpecErrorV::RecursionLimitExceeded),
        count + tree_seq_height(sels) <= 513 ==> spec_from_ast_seq(sels, current_type, schema, count)
            is Ok,
    decreases sels,
{
    if sels.len() > 0 {
        let rest = sels.subrange(1, sels.len() as int);
        lemma_fragment_tree_limit(sels[0], current_type, schema, count);
        lemma_fragment_tree_seq_limit(rest, current_type, schema, count);
    }
}


/// Whatever the shape, the schema and the directives, a tree that stays
/// within the limit is never rejected for depth: under the bound the
/// construction returns a selection, a silent drop, or `InvalidType`,
/// never `RecursionLimitExceeded`.
pub proof fn lemma_within_depth_no_limit_error(
    sel: AstSelection,
    current_type: FieldTypeV,
    schema: Schema,
    count: int,
)
    requires
        count >= 0,
        count + tree_height(sel) <= 513,
    ensures
        spec_from_ast(sel, current_type, schema, count) != Err::<
            Option<SelectionV>,
            SpecErrorV,
        >(SpecErrorV::RecursionLimitExceeded),
    decreases sel,
{
    match sel {
        AstSelection::Field(f) => {
            match spec_resolve_field_type(f.name@, current_type, schema) {
                Err(_) => {},
                Ok(ft) => {
                    if !spec_is_builtin_scalar(ft) {
                        match f.selection_set {
                            None => {},
                            Some(children) => {
                                lemma_seq_within_depth_no_limit_error(
                                    children@,
                                    ft,
                                    schema,
                                    count + 1,
                                );
                            },
                        }
                    }
                },
            }
        },
        AstSelection::InlineFragment(g) => {
            match spec_type_condition(g.type_condition, current_type) {
                None => {},
                Some(tc) => {
                    lemma_seq_within_depth_no_limit_error(
                        g.selection_set@,
                        FieldTypeV::Named(tc),
                        schema,
                        count + 1,
                    );
                },
            }
        },
        AstSelection::FragmentSpread(_) => {},
    }
}

proof fn lemma_seq_within_depth_no_limit_error(
    sels: Seq<AstSelection>,
    current_type: FieldTypeV,
    schema: Schema,
    count: int,
)
    requires
        count >= 0,
        count + tree_seq_height(sels) <= 513,
    ensures
        spec_from_ast_seq(sels, current_type, schema, count) != Err::<
            Seq<SelectionV>,
            SpecErrorV,
        >(SpecErrorV::RecursionLimitExceeded),
    decreases sels,
{
    if sels.len() > 0 {
        let rest = sels.subrange(1, sels.len() as int);
        lemma_within_depth_no_limit_error(sels[0], current_type, schema, count);
        lemma_seq_within_depth_no_limit_error(rest, current_type, schema, count);
    }
}

/// A node's own directives alone decide a silent drop: under the limit,
/// construction returns `Ok(None)` exactly when the node itself is
/// statically skipped, by its own `@skip(if: true)` or
/// `@include(if: false)`, and never for any other reason.
pub open spec fn spec_statically_dropped(sel: AstSelection) -> bool {
    let dirs = match sel {
        AstSelection::Field(f) => f.directives,
        AstSelection::InlineFragment(g) => g.directives,
        AstSelection::FragmentSpread(sp) => sp.directives,
    };
    spec_skip_of_directives(dirs@)@ is Yes || spec_include_of_directives(dirs@)@ is No
}

pub proof fn lemma_none_iff_statically_dropped(
    sel: AstSelection,
    current_type: FieldTypeV,
    schema: Schema,
    count: int,
)
    requires
        0 <= count <= 512,
    ensures
        (spec_from_ast(sel, current_type, schema, count) == Ok::<
            Option<SelectionV>,
            SpecErrorV,
        >(None)) <==> spec_statically_dropped(sel),
{
}

} // verus!
