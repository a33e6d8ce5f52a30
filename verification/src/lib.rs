//! Generator of companion accessor types for records whose fields are tagged
//! as constants or as values that tests may replace.
//!
//! The work is done in two stages. The [`fields`] module reads the annotations
//! of each field into a list of descriptors, and the [`quotes`] module turns
//! that list into the description of the companion type. The [`emit`] module
//! writes a companion out as source text. The [`syntax`] module reads the
//! owning type from a parsed definition, and the [`literal`] module tells it
//! which literals can be read. The [`companion`] module says what a generated
//! companion does when it is used, and proves of every generated companion
//! that its accessors return the defaults and the values of the last reset.

use crate::fields::{
    all_parse, descriptors, first_failure, parse_error_text, parse_field, CornettoField,
    ParseError, ParseErrorView,
};
use crate::quotes::{generated_type, GeneratedType, GeneratedTypeView};
use crate::syntax::{definition, SourceData, SourceDataView, SourceType, SourceTypeView};
use vstd::prelude::*;
use vstd::string::*;

pub mod companion;
pub mod emit;
pub mod fields;
pub mod literal;
pub mod quotes;
pub mod syntax;

verus! {

/// Why no companion could be generated for a type.
#[derive(Clone, Debug, PartialEq, Eq)]
pub enum CornettoError {
    /// The type has generic parameters.
    GenericOwner,
    /// The type is not a record with named fields.
    NotARecord,
    /// The annotations of a field could not be read.
    Field(ParseError),
}

/// Mathematical value of a [`CornettoError`].
pub enum CornettoErrorView {
    GenericOwner,
    NotARecord,
    Field(ParseErrorView),
}

impl View for CornettoError {
    type V = CornettoErrorView;

    open spec fn view(&self) -> CornettoErrorView {
        match self {
            CornettoError::GenericOwner => CornettoErrorView::GenericOwner,
            CornettoError::NotARecord => CornettoErrorView::NotARecord,
            CornettoError::Field(e) => CornettoErrorView::Field(e@),
        }
    }
}

/// The cause of a failure in words.
pub open spec fn error_text(e: CornettoErrorView) -> Seq<char> {
    match e {
        CornettoErrorView::GenericOwner => "`#[derive(Cornetto)]` cannot be applied to types with generic parameters"@,
        CornettoErrorView::NotARecord => "`#[derive(Cornetto)]` cannot be applied to other than structs with named fields"@,
        CornettoErrorView::Field(e) => parse_error_text(e),
    }
}

impl CornettoError {
    /// The cause of the failure in words.
    pub fn message(&self) -> (text: String)
        ensures
            text@ == error_text(self@),
    {
        match self {
            CornettoError::GenericOwner => String::from_str(
                "`#[derive(Cornetto)]` cannot be applied to types with generic parameters",
            ),
            CornettoError::NotARecord => String::from_str(
                "`#[derive(Cornetto)]` cannot be applied to other than structs with named fields",
            ),
            CornettoError::Field(e) => e.message(),
        }
    }
}

/// Mathematical value of the outcome of a generation.
pub open spec fn outcome_view(r: Result<GeneratedType, CornettoError>) -> Result<
    GeneratedTypeView,
    CornettoErrorView,
> {
    match r {
        Ok(generated) => Ok(generated@),
        Err(e) => Err(e@),
    }
}

/// Whether `r` is the outcome of generating the companion of `owner`.
///
/// A type with generic parameters is refused first, then a type that is not a
/// record, both before any annotation is read. After that the first field
/// without a descriptor decides the failure. A record of which every field
/// has a descriptor gets the companion of these descriptors.
pub open spec fn expansion_of(
    owner: SourceTypeView,
    r: Result<GeneratedTypeView, CornettoErrorView>,
) -> bool {
    if owner.generic {
        r == Err::<GeneratedTypeView, CornettoErrorView>(CornettoErrorView::GenericOwner)
    } else {
        match owner.data {
            SourceDataView::Other => r == Err::<GeneratedTypeView, CornettoErrorView>(
                CornettoErrorView::NotARecord,
            ),
            SourceDataView::Record(fields) => if all_parse(fields) {
                r == Ok::<GeneratedTypeView, CornettoErrorView>(
                    generated_type(owner.name, descriptors(fields)),
                )
            } else {
                exists|i: int|
                    #[trigger] first_failure(fields, i) && r == Err::<
                        GeneratedTypeView,
                        CornettoErrorView,
                    >(CornettoErrorView::Field(parse_field(fields[i])->Err_0))
            },
        }
    }
}

/// Generates the companion of a type definition.
pub fn generate(owner: &SourceType) -> (r: Result<GeneratedType, CornettoError>)
    ensures
        expansion_of(owner@, outcome_view(r)),
{
    if owner.generic {
        return Err(CornettoError::GenericOwner);
    }
    match &owner.data {
        SourceData::Record(fields) => {
            match CornettoField::parse(fields) {
                Ok(parsed) => crate::quotes::write(owner.name.as_str(), &parsed),
                Err(e) => Err(CornettoError::Field(e)),
            }
        },
        SourceData::Other => Err(CornettoError::NotARecord),
    }
}

/// Generates the companion of a parsed type definition: reads the definition
/// with [`SourceType::read`] and generates from what was read.
///
/// The outcome is the one that [`generate`] gives for the type definition
/// that the syntax tree holds.
pub fn impl_cornetto(input: &syn::DeriveInput) -> (r: Result<GeneratedType, CornettoError>)
    ensures
        expansion_of(definition(*input), outcome_view(r)),
{
    let owner = SourceType::read(input);
    generate(&owner)
}

} // verus!
