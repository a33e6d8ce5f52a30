//! The owning type as the generator sees it, and its reading from a parsed
//! type definition.
//!
//! The syntax tree of `syn` is opaque to the proofs. What each call into it
//! returns has a name, and [`definition`] says over these names which type
//! definition a syntax tree holds. The functions of this module walk the tree
//! and copy what the generator reads into plain values: names, the text of
//! types and literals, and the shape of each annotation.

use crate::fields::{
    Annotation, AnnotationEntry, AnnotationEntryView, AnnotationView, DefaultValue,
    DefaultValueView, SourceField, SourceFieldView,
};
use crate::literal::{literal_is_readable, readable_literal};
use quote::ToTokens;
use vstd::prelude::*;

verus! {

/// What a type definition holds.
#[derive(Clone, Debug, PartialEq, Eq)]
pub enum SourceData {
    /// A record, with its fields in declaration order.
    Record(Vec<SourceField>),
    /// Anything else: an enumeration, a union, or a structure with unnamed
    /// fields.
    Other,
}

/// Mathematical value of a [`SourceData`].
pub enum SourceDataView {
    Record(Seq<SourceFieldView>),
    Other,
}

impl View for SourceData {
    type V = SourceDataView;

    open spec fn view(&self) -> SourceDataView {
        match self {
            SourceData::Record(fields) => SourceDataView::Record(fields.deep_view()),
            SourceData::Other => SourceDataView::Other,
        }
    }
}

/// A type definition that a companion is asked for.
#[derive(Clone, Debug, PartialEq, Eq)]
pub struct SourceType {
    /// The name of the type.
    pub name: String,
    /// Whether the type has generic parameters.
    pub generic: bool,
    /// What the type holds.
    pub data: SourceData,
}

/// Mathematical value of a [`SourceType`].
pub struct SourceTypeView {
    pub name: Seq<char>,
    pub generic: bool,
    pub data: SourceDataView,
}

impl View for SourceType {
    type V = SourceTypeView;

    open spec fn view(&self) -> SourceTypeView {
        SourceTypeView { name: self.name@, generic: self.generic, data: self.data@ }
    }
}

/// The kind of a literal, as the syntax tree tells literals apart.
#[derive(Clone, Copy, Debug, PartialEq, Eq, Structural)]
pub enum LiteralKind {
    /// A string literal.
    Str,
    /// A byte string literal.
    ByteStr,
    /// A byte literal.
    Byte,
    /// A character literal.
    Char,
    /// An integer literal.
    Int,
    /// A floating point literal.
    Float,
    /// A boolean literal.
    Bool,
    /// A literal that the syntax tree keeps as a raw token.
    Verbatim,
}

impl DefaultValue {
    /// The default that a literal of the given text and kind stands for. A
    /// string literal is textual, and a literal of any other kind is not.
    pub fn from_literal(text: String, kind: LiteralKind) -> (value: DefaultValue)
        ensures
            value@ == (DefaultValueView { text: text@, textual: kind == LiteralKind::Str }),
    {
        let textual = match kind {
            LiteralKind::Str => true,
            _ => false,
        };
        DefaultValue { text, textual }
    }
}

/// A parsed type definition, `syn::DeriveInput`.
#[verifier::external_type_specification]
#[verifier::external_body]
pub struct ExDeriveInput(syn::DeriveInput);

/// The data of a structure, `syn::DataStruct`.
#[verifier::external_type_specification]
#[verifier::external_body]
pub struct ExDataStruct(syn::DataStruct);

/// A field of a structure, `syn::Field`.
#[verifier::external_type_specification]
#[verifier::external_body]
pub struct ExField(syn::Field);

/// An attribute, `syn::Attribute`.
#[verifier::external_type_specification]
#[verifier::external_body]
pub struct ExAttribute(syn::Attribute);

/// The structured content of an attribute, `syn::Meta`.
#[verifier::external_type_specification]
#[verifier::external_body]
pub struct ExMeta(syn::Meta);

/// An entry of a structured list, `syn::NestedMeta`.
#[verifier::external_type_specification]
#[verifier::external_body]
pub struct ExNestedMeta(syn::NestedMeta);

/// A literal, `syn::Lit`.
#[verifier::external_type_specification]
#[verifier::external_body]
pub struct ExLit(syn::Lit);

/// A type expression, `syn::Type`.
#[verifier::external_type_specification]
#[verifier::external_body]
pub struct ExType(syn::Type);

/// A failure of the parser, `syn::Error`.
#[verifier::external_type_specification]
#[verifier::external_body]
pub struct ExError(syn::Error);

/// An identifier, `proc_macro2::Ident`.
#[verifier::external_type_specification]
#[verifier::external_body]
pub struct ExIdent(proc_macro2::Ident);

/// A sequence of tokens, `proc_macro2::TokenStream`.
#[verifier::external_type_specification]
#[verifier::external_body]
pub struct ExTokenStream(proc_macro2::TokenStream);

/// A token or a delimited sequence of tokens, `proc_macro2::TokenTree`.
#[verifier::external_type_specification]
#[verifier::external_body]
pub struct ExTokenTree(proc_macro2::TokenTree);

/// What `Punctuated::is_empty` answers for the generic parameters of a
/// definition.
pub uninterp spec fn generics_empty(input: syn::DeriveInput) -> bool;

/// The name of a definition.
pub uninterp spec fn owner_ident_of(input: syn::DeriveInput) -> proc_macro2::Ident;

/// The data of a definition that is a structure.
pub uninterp spec fn struct_of(input: syn::DeriveInput) -> Option<syn::DataStruct>;

/// The fields that `Fields::iter` walks, in declaration order.
pub uninterp spec fn fields_of(data: syn::DataStruct) -> Seq<syn::Field>;

/// The name of a field, where it has one.
pub uninterp spec fn field_ident_of(field: syn::Field) -> Option<proc_macro2::Ident>;

/// The type of a field.
pub uninterp spec fn field_type_of(field: syn::Field) -> syn::Type;

/// The attributes of a field, in source order.
pub uninterp spec fn field_attributes_of(field: syn::Field) -> Seq<syn::Attribute>;

/// The tokens of an attribute after its path.
pub uninterp spec fn attribute_tokens_of(attribute: syn::Attribute) -> proc_macro2::TokenStream;

/// The token trees of a sequence of tokens, in order.
pub uninterp spec fn trees_of(stream: proc_macro2::TokenStream) -> Seq<proc_macro2::TokenTree>;

/// The tokens inside a token tree that is a delimited group.
pub uninterp spec fn tree_group_of(tree: proc_macro2::TokenTree) -> Option<
    proc_macro2::TokenStream,
>;

/// The text of a token tree that is a literal, as `Literal::to_string` prints
/// it.
pub uninterp spec fn tree_literal_of(tree: proc_macro2::TokenTree) -> Option<Seq<char>>;

/// What `Attribute::parse_meta` gives for an attribute, where it succeeds.
pub uninterp spec fn parsed_meta(attribute: syn::Attribute) -> Option<syn::Meta>;

/// The entries of a structured list, in source order.
pub uninterp spec fn meta_list_of(meta: syn::Meta) -> Option<Seq<syn::NestedMeta>>;

/// The literal that an entry of a structured list is, where it is one.
pub uninterp spec fn nested_literal_of(nested: syn::NestedMeta) -> Option<syn::Lit>;

/// The structured item that an entry of a structured list is, where it is
/// one.
pub uninterp spec fn nested_meta_of(nested: syn::NestedMeta) -> Option<syn::Meta>;

/// What `Path::get_ident` gives for the path of a structured item: the
/// identifier of a path that is one identifier.
pub uninterp spec fn meta_ident_of(meta: syn::Meta) -> Option<proc_macro2::Ident>;

/// The variant of `syn::Lit` that a literal is.
pub uninterp spec fn literal_kind_of(literal: syn::Lit) -> LiteralKind;

/// The tokens that `ToTokens::to_token_stream` gives for a literal.
pub uninterp spec fn literal_tokens_of(literal: syn::Lit) -> proc_macro2::TokenStream;

/// The tokens that `ToTokens::to_token_stream` gives for a type.
pub uninterp spec fn type_tokens_of(ty: syn::Type) -> proc_macro2::TokenStream;

/// The text that `TokenStream::to_string` prints.
pub uninterp spec fn tokens_text_of(tokens: proc_macro2::TokenStream) -> Seq<char>;

/// The text that `Ident::to_string` prints.
pub uninterp spec fn ident_text_of(ident: proc_macro2::Ident) -> Seq<char>;

/// What a list of references refers to.
pub open spec fn referents<T>(references: Seq<&T>) -> Seq<T> {
    Seq::new(references.len(), |i: int| *references[i])
}

/// Whether every literal token of a sequence of tokens has a text that can
/// be read, in the sequence itself and in its groups down to `depth` levels,
/// and no group lies deeper.
pub open spec fn literals_readable(stream: proc_macro2::TokenStream, depth: nat) -> bool
    decreases depth,
{
    forall|i: int|
        0 <= i < trees_of(stream).len() ==> {
            let tree = #[trigger] trees_of(stream)[i];
            &&& tree_literal_of(tree) matches Some(text) ==> readable_literal(text)
            &&& tree_group_of(tree) matches Some(inner) ==> depth > 0 && literals_readable(
                inner,
                (depth - 1) as nat,
            )
        }
}

/// Whether an attribute holds readable literals only, so that it can be
/// handed to `Attribute::parse_meta`. The depth is one that no sequence of
/// tokens in memory reaches.
pub open spec fn screened(attribute: syn::Attribute) -> bool {
    literals_readable(attribute_tokens_of(attribute), u64::MAX as nat)
}

/// Calls `Punctuated::is_empty` on the generic parameters of a definition.
/// The answer is known by the name [`generics_empty`].
#[verifier::external_body]
fn generics_are_empty(input: &syn::DeriveInput) -> (empty: bool)
    ensures
        empty == generics_empty(*input),
{
    input.generics.params.is_empty()
}

/// Hands out the name of a definition, the field `ident` of
/// `syn::DeriveInput`, known by the name [`owner_ident_of`].
#[verifier::external_body]
fn owner_ident(input: &syn::DeriveInput) -> (ident: &proc_macro2::Ident)
    ensures
        *ident == owner_ident_of(*input),
{
    &input.ident
}

/// Tells the variants of `syn::Data` apart and hands out the data of a
/// structure, known by the name [`struct_of`].
#[verifier::external_body]
fn struct_data(input: &syn::DeriveInput) -> (data: Option<&syn::DataStruct>)
    ensures
        match data {
            Some(found) => struct_of(*input) == Some(*found),
            None => struct_of(*input) is None,
        },
{
    match &input.data {
        syn::Data::Struct(data) => Some(data),
        syn::Data::Enum(_) => None,
        syn::Data::Union(_) => None,
    }
}

/// Walks the fields of a structure with `Fields::iter`, which gives them in
/// declaration order. They are known by the name [`fields_of`].
#[verifier::external_body]
fn struct_fields(data: &syn::DataStruct) -> (fields: Vec<&syn::Field>)
    ensures
        referents(fields@) == fields_of(*data),
{
    data.fields.iter().collect()
}

/// Hands out the name of a field, the field `ident` of `syn::Field`, where it
/// has one. It is known by the name [`field_ident_of`].
#[verifier::external_body]
fn field_ident(field: &syn::Field) -> (ident: Option<&proc_macro2::Ident>)
    ensures
        match ident {
            Some(found) => field_ident_of(*field) == Some(*found),
            None => field_ident_of(*field) is None,
        },
{
    field.ident.as_ref()
}

/// Hands out the type of a field, the field `ty` of `syn::Field`, known by
/// the name [`field_type_of`].
#[verifier::external_body]
fn field_type(field: &syn::Field) -> (ty: &syn::Type)
    ensures
        *ty == field_type_of(*field),
{
    &field.ty
}

/// Hands out the attributes of a field, the field `attrs` of `syn::Field`,
/// which holds them in source order. They are known by the name
/// [`field_attributes_of`].
#[verifier::external_body]
fn field_attributes(field: &syn::Field) -> (attributes: &Vec<syn::Attribute>)
    ensures
        attributes@ == field_attributes_of(*field),
{
    &field.attrs
}

/// Hands out the tokens of an attribute, the field `tokens` of
/// `syn::Attribute`, known by the name [`attribute_tokens_of`].
#[verifier::external_body]
fn attribute_tokens(attribute: &syn::Attribute) -> (tokens: &proc_macro2::TokenStream)
    ensures
        *tokens == attribute_tokens_of(*attribute),
{
    &attribute.tokens
}

/// Walks a sequence of tokens with `TokenStream::into_iter`, which gives its
/// token trees in order. They are known by the name [`trees_of`].
#[verifier::external_body]
fn stream_trees(stream: &proc_macro2::TokenStream) -> (trees: Vec<proc_macro2::TokenTree>)
    ensures
        trees@ == trees_of(*stream),
{
    stream.clone().into_iter().collect()
}

/// Tells the variants of `proc_macro2::TokenTree` apart and hands out the
/// tokens inside a group, which `Group::stream` gives. They are known by the
/// name [`tree_group_of`].
#[verifier::external_body]
fn tree_group(tree: &proc_macro2::TokenTree) -> (inner: Option<proc_macro2::TokenStream>)
    ensures
        inner == tree_group_of(*tree),
{
    match tree {
        proc_macro2::TokenTree::Group(group) => Some(group.stream()),
        proc_macro2::TokenTree::Ident(_) => None,
        proc_macro2::TokenTree::Punct(_) => None,
        proc_macro2::TokenTree::Literal(_) => None,
    }
}

/// Tells the variants of `proc_macro2::TokenTree` apart and prints a literal
/// with `Literal::to_string`. The text is known by the name
/// [`tree_literal_of`].
#[verifier::external_body]
fn tree_literal(tree: &proc_macro2::TokenTree) -> (text: Option<String>)
    ensures
        text.deep_view() == tree_literal_of(*tree),
{
    match tree {
        proc_macro2::TokenTree::Group(_) => None,
        proc_macro2::TokenTree::Ident(_) => None,
        proc_macro2::TokenTree::Punct(_) => None,
        proc_macro2::TokenTree::Literal(literal) => Some(literal.to_string()),
    }
}

/// Calls `Attribute::parse_meta`. The call reads the text of every literal
/// token that it meets with `syn::Lit::new`, and after a minus sign lexes
/// the number again with `Literal::from_str`. These stop the program on a
/// text that is no string, byte string, byte, character or number as they
/// know them. So the attribute has to be screened: the whole text of every
/// literal token in it is one that [`readable_literal`] admits, for each of
/// which they return. What the call gives is known by the name
/// [`parsed_meta`].
#[verifier::external_body]
fn attribute_meta(attribute: &syn::Attribute) -> (meta: Result<syn::Meta, syn::Error>)
    requires
        screened(*attribute),
    ensures
        match meta {
            Ok(found) => parsed_meta(*attribute) == Some(found),
            Err(_) => parsed_meta(*attribute) is None,
        },
{
    attribute.parse_meta()
}

/// Tells the variants of `syn::Meta` apart and hands out the entries of a
/// structured list, in source order. They are known by the name
/// [`meta_list_of`].
#[verifier::external_body]
fn meta_entries(meta: &syn::Meta) -> (entries: Option<Vec<&syn::NestedMeta>>)
    ensures
        match entries {
            Some(found) => meta_list_of(*meta) == Some(referents(found@)),
            None => meta_list_of(*meta) is None,
        },
{
    match meta {
        syn::Meta::List(list) => Some(list.nested.iter().collect()),
        syn::Meta::Path(_) => None,
        syn::Meta::NameValue(_) => None,
    }
}

/// Tells the variants of `syn::NestedMeta` apart and hands out the literal,
/// known by the name [`nested_literal_of`].
#[verifier::external_body]
fn nested_literal(nested: &syn::NestedMeta) -> (literal: Option<&syn::Lit>)
    ensures
        match literal {
            Some(found) => nested_literal_of(*nested) == Some(*found),
            None => nested_literal_of(*nested) is None,
        },
{
    match nested {
        syn::NestedMeta::Meta(_) => None,
        syn::NestedMeta::Lit(literal) => Some(literal),
    }
}

/// Tells the variants of `syn::NestedMeta` apart and hands out the structured
/// item, known by the name [`nested_meta_of`].
#[verifier::external_body]
fn nested_meta(nested: &syn::NestedMeta) -> (meta: Option<&syn::Meta>)
    ensures
        match meta {
            Some(found) => nested_meta_of(*nested) == Some(*found),
            None => nested_meta_of(*nested) is None,
        },
{
    match nested {
        syn::NestedMeta::Meta(meta) => Some(meta),
        syn::NestedMeta::Lit(_) => None,
    }
}

/// Calls `Meta::path` and then `Path::get_ident`, which gives the identifier
/// of a path that is one identifier and nothing for any other path. It is
/// known by the name [`meta_ident_of`].
#[verifier::external_body]
fn meta_ident(meta: &syn::Meta) -> (ident: Option<&proc_macro2::Ident>)
    ensures
        match ident {
            Some(found) => meta_ident_of(*meta) == Some(*found),
            None => meta_ident_of(*meta) is None,
        },
{
    meta.path().get_ident()
}

/// Tells the variants of `syn::Lit` apart. The variant is known by the name
/// [`literal_kind_of`].
#[verifier::external_body]
fn literal_kind(literal: &syn::Lit) -> (kind: LiteralKind)
    ensures
        kind == literal_kind_of(*literal),
{
    match literal {
        syn::Lit::Str(_) => LiteralKind::Str,
        syn::Lit::ByteStr(_) => LiteralKind::ByteStr,
        syn::Lit::Byte(_) => LiteralKind::Byte,
        syn::Lit::Char(_) => LiteralKind::Char,
        syn::Lit::Int(_) => LiteralKind::Int,
        syn::Lit::Float(_) => LiteralKind::Float,
        syn::Lit::Bool(_) => LiteralKind::Bool,
        syn::Lit::Verbatim(_) => LiteralKind::Verbatim,
    }
}

/// Calls `ToTokens::to_token_stream` on a literal. The tokens are known by
/// the name [`literal_tokens_of`].
#[verifier::external_body]
fn literal_tokens(literal: &syn::Lit) -> (tokens: proc_macro2::TokenStream)
    ensures
        tokens == literal_tokens_of(*literal),
{
    literal.to_token_stream()
}

/// Calls `ToTokens::to_token_stream` on a type. The tokens are known by the
/// name [`type_tokens_of`].
#[verifier::external_body]
fn type_tokens(ty: &syn::Type) -> (tokens: proc_macro2::TokenStream)
    ensures
        tokens == type_tokens_of(*ty),
{
    ty.to_token_stream()
}

/// Prints tokens with `TokenStream::to_string`. The text is known by the name
/// [`tokens_text_of`].
#[verifier::external_body]
fn tokens_text(tokens: &proc_macro2::TokenStream) -> (text: String)
    ensures
        text@ == tokens_text_of(*tokens),
{
    tokens.to_string()
}

/// Prints an identifier with `Ident::to_string`. The text is known by the
/// name [`ident_text_of`].
#[verifier::external_body]
fn ident_text(ident: &proc_macro2::Ident) -> (text: String)
    ensures
        text@ == ident_text_of(*ident),
{
    ident.to_string()
}

/// The annotation entry that an entry of a structured list is: a literal
/// with its text and kind, or else a term with the identifier of its path.
pub open spec fn entry_of(nested: syn::NestedMeta) -> AnnotationEntryView {
    match nested_literal_of(nested) {
        Some(literal) => AnnotationEntryView::Literal(
            DefaultValueView {
                text: tokens_text_of(literal_tokens_of(literal)),
                textual: literal_kind_of(literal) == LiteralKind::Str,
            },
        ),
        None => AnnotationEntryView::Term(
            match nested_meta_of(nested) {
                Some(meta) => match meta_ident_of(meta) {
                    Some(ident) => Some(ident_text_of(ident)),
                    None => None,
                },
                None => None,
            },
        ),
    }
}

/// The annotation entries of a structured list.
pub open spec fn entries_of(nested: Seq<syn::NestedMeta>) -> Seq<AnnotationEntryView> {
    Seq::new(nested.len(), |i: int| entry_of(nested[i]))
}

/// The annotation that an attribute is: unreadable where it holds a literal
/// that cannot be read, a group where it parses as a structured list, and no
/// group otherwise.
pub open spec fn annotation_of(attribute: syn::Attribute) -> AnnotationView {
    if screened(attribute) {
        match parsed_meta(attribute) {
            Some(meta) => match meta_list_of(meta) {
                Some(nested) => AnnotationView::Group(entries_of(nested)),
                None => AnnotationView::Other,
            },
            None => AnnotationView::Other,
        }
    } else {
        AnnotationView::Unreadable
    }
}

/// The annotations of a list of attributes.
pub open spec fn annotations_of(attributes: Seq<syn::Attribute>) -> Seq<AnnotationView> {
    Seq::new(attributes.len(), |i: int| annotation_of(attributes[i]))
}

/// The source field that a field with the name `ident` is.
pub open spec fn source_field_of(field: syn::Field, ident: proc_macro2::Ident) -> SourceFieldView {
    SourceFieldView {
        name: ident_text_of(ident),
        ty: tokens_text_of(type_tokens_of(field_type_of(field))),
        annotations: annotations_of(field_attributes_of(field)),
    }
}

/// Whether every field of the list has a name.
pub open spec fn all_named(fields: Seq<syn::Field>) -> bool {
    forall|i: int| 0 <= i < fields.len() ==> field_ident_of(#[trigger] fields[i]) is Some
}

/// What the fields of a structure make: a record of one source field each
/// where every field has a name, and no record otherwise.
pub open spec fn data_of(fields: Seq<syn::Field>) -> SourceDataView {
    if all_named(fields) {
        SourceDataView::Record(
            Seq::new(
                fields.len(),
                |i: int| source_field_of(fields[i], field_ident_of(fields[i])->Some_0),
            ),
        )
    } else {
        SourceDataView::Other
    }
}

/// The type definition that a syntax tree holds. It is generic where it has
/// generic parameters, and a record where it is a structure of which every
/// field has a name.
pub open spec fn definition(input: syn::DeriveInput) -> SourceTypeView {
    SourceTypeView {
        name: ident_text_of(owner_ident_of(input)),
        generic: !generics_empty(input),
        data: match struct_of(input) {
            Some(data) => data_of(fields_of(data)),
            None => SourceDataView::Other,
        },
    }
}

fn read_entry(nested: &syn::NestedMeta) -> (entry: AnnotationEntry)
    ensures
        entry@ == entry_of(*nested),
{
    match nested_literal(nested) {
        Some(literal) => AnnotationEntry::Literal(
            DefaultValue::from_literal(tokens_text(&literal_tokens(literal)), literal_kind(literal)),
        ),
        None => AnnotationEntry::Term(
            match nested_meta(nested) {
                Some(meta) => match meta_ident(meta) {
                    Some(ident) => Some(ident_text(ident)),
                    None => None,
                },
                None => None,
            },
        ),
    }
}

fn read_entries(entries: &Vec<&syn::NestedMeta>) -> (read: Vec<AnnotationEntry>)
    ensures
        read.deep_view() == entries_of(referents(entries@)),
{
    let mut read: Vec<AnnotationEntry> = Vec::new();
    let mut i: usize = 0;
    while i < entries.len()
        invariant
            i <= entries.len(),
            read.len() == i,
            forall|k: int| 0 <= k < i ==> (#[trigger] read[k])@ == entry_of(*entries[k]),
        decreases entries.len() - i,
    {
        read.push(read_entry(entries[i]));
        i += 1;
    }
    assert(read.deep_view() =~= entries_of(referents(entries@)));
    read
}

fn read_annotation(attribute: &syn::Attribute) -> (annotation: Annotation)
    ensures
        annotation@ == annotation_of(*attribute),
{
    if !literals_are_readable(attribute_tokens(attribute), u64::MAX) {
        return Annotation::Unreadable;
    }
    match attribute_meta(attribute) {
        Ok(meta) => match meta_entries(&meta) {
            Some(entries) => Annotation::Group(read_entries(&entries)),
            None => Annotation::Other,
        },
        Err(_) => Annotation::Other,
    }
}

fn read_annotations(attributes: &Vec<syn::Attribute>) -> (read: Vec<Annotation>)
    ensures
        read.deep_view() == annotations_of(attributes@),
{
    let mut read: Vec<Annotation> = Vec::new();
    let mut i: usize = 0;
    while i < attributes.len()
        invariant
            i <= attributes.len(),
            read.len() == i,
            forall|k: int| 0 <= k < i ==> (#[trigger] read[k])@ == annotation_of(attributes[k]),
        decreases attributes.len() - i,
    {
        read.push(read_annotation(&attributes[i]));
        i += 1;
    }
    assert(read.deep_view() =~= annotations_of(attributes@));
    read
}

/// Reads the fields of a structure, in declaration order. They make a record
/// of one source field each where each has a name, so the empty record where
/// there is no field, and no record where one of them has no name.
fn read_fields(fields: &Vec<&syn::Field>) -> (data: SourceData)
    ensures
        data@ == data_of(referents(fields@)),
{
    let ghost all = referents(fields@);
    let mut read: Vec<SourceField> = Vec::new();
    let mut i: usize = 0;
    while i < fields.len()
        invariant
            i <= fields.len(),
            read.len() == i,
            all == referents(fields@),
            forall|k: int| 0 <= k < i ==> field_ident_of(#[trigger] all[k]) is Some,
            forall|k: int|
                0 <= k < i ==> (#[trigger] read[k])@ == source_field_of(
                    all[k],
                    field_ident_of(all[k])->Some_0,
                ),
        decreases fields.len() - i,
    {
        let field = fields[i];
        assert(all[i as int] == *field);
        let name = match field_ident(field) {
            Some(ident) => ident_text(ident),
            None => {
                return SourceData::Other;
            },
        };
        let ty = tokens_text(&type_tokens(field_type(field)));
        let annotations = read_annotations(field_attributes(field));
        read.push(SourceField { name, ty, annotations });
        i += 1;
    }
    assert(read.deep_view() =~= data_of(all)->Record_0);
    SourceData::Record(read)
}

impl SourceType {
    /// Reads a parsed type definition.
    ///
    /// The definition is a record where it is a structure of which every
    /// field has a name. Each attribute of a field becomes one annotation:
    /// unreadable where it holds a literal that cannot be read, a group where
    /// it parses as a structured list, and then each of its entries is a
    /// literal or a term.
    pub fn read(input: &syn::DeriveInput) -> (owner: SourceType)
        ensures
            owner@ == definition(*input),
    {
        let data = match struct_data(input) {
            Some(data) => read_fields(&struct_fields(data)),
            None => SourceData::Other,
        };
        SourceType {
            name: ident_text(owner_ident(input)),
            generic: !generics_are_empty(input),
            data,
        }
    }
}

/// Looks through a sequence of tokens and its groups, down to `depth`
/// levels, for a literal token that cannot be read or a group that lies
/// deeper.
fn literals_are_readable(stream: &proc_macro2::TokenStream, depth: u64) -> (known: bool)
    ensures
        known == literals_readable(*stream, depth as nat),
    decreases depth,
{
    let trees = stream_trees(stream);
    let mut i: usize = 0;
    while i < trees.len()
        invariant
            i <= trees.len(),
            trees@ == trees_of(*stream),
            forall|k: int|
                0 <= k < i ==> {
                    let tree = #[trigger] trees_of(*stream)[k];
                    &&& tree_literal_of(tree) matches Some(text) ==> readable_literal(text)
                    &&& tree_group_of(tree) matches Some(inner) ==> depth > 0 && literals_readable(
                        inner,
                        (depth - 1) as nat,
                    )
                },
        decreases trees.len() - i,
    {
        let ghost tree = trees_of(*stream)[i as int];
        match tree_literal(&trees[i]) {
            Some(text) => {
                if !literal_is_readable(text.as_str()) {
                    assert(!literals_readable(*stream, depth as nat)) by {
                        assert(tree_literal_of(tree) is Some);
                    }
                    return false;
                }
            },
            None => {},
        }
        match tree_group(&trees[i]) {
            Some(inner) => {
                if depth == 0 || !literals_are_readable(&inner, depth - 1) {
                    assert(!literals_readable(*stream, depth as nat)) by {
                        assert(tree_group_of(tree) is Some);
                    }
                    return false;
                }
            },
            None => {},
        }
        i += 1;
    }
    true
}

} // verus!
