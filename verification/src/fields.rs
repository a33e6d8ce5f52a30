//! Field descriptors and the reading of field annotations.
//!
//! A field of the owning record carries annotations. Each annotation is
//! expected to be a group of comma-separated entries, and the entries of all
//! groups of a field together must hold exactly one mutability term (`const`
//! or `mut`) and exactly one literal, in any order.

use vstd::prelude::*;
use vstd::string::*;

verus! {

/// How the value of a field may change after generation.
#[derive(Clone, Copy, Debug, PartialEq, Eq, Structural)]
pub enum CornettoKind {
    /// The field keeps its default in every build.
    Constant,
    /// The field keeps its default in production builds and can be replaced
    /// in instrumented builds.
    Testmutable,
}

/// The literal that gives a field its default.
#[derive(Clone, Debug, PartialEq, Eq)]
pub struct DefaultValue {
    /// The literal as it is written in source.
    pub text: String,
    /// Whether the literal is a quoted string. A textual default is stored as
    /// a borrowed string and copied into an owned one wherever it is used.
    pub textual: bool,
}

/// Mathematical value of a [`DefaultValue`].
pub struct DefaultValueView {
    pub text: Seq<char>,
    pub textual: bool,
}

impl View for DefaultValue {
    type V = DefaultValueView;

    open spec fn view(&self) -> DefaultValueView {
        DefaultValueView { text: self.text@, textual: self.textual }
    }
}

impl DeepView for DefaultValue {
    type V = DefaultValueView;

    open spec fn deep_view(&self) -> DefaultValueView {
        self@
    }
}

impl DefaultValue {
    /// A copy with the same text and kind.
    pub fn duplicate(&self) -> (copy: DefaultValue)
        ensures
            copy@ == self@,
    {
        DefaultValue { text: self.text.clone(), textual: self.textual }
    }
}

/// One entry of an annotation group.
#[derive(Clone, Debug, PartialEq, Eq)]
pub enum AnnotationEntry {
    /// An identifier-style term. It holds the identifier, or nothing when the
    /// term is a longer path.
    Term(Option<String>),
    /// A literal.
    Literal(DefaultValue),
}

/// Mathematical value of an [`AnnotationEntry`].
pub enum AnnotationEntryView {
    Term(Option<Seq<char>>),
    Literal(DefaultValueView),
}

impl View for AnnotationEntry {
    type V = AnnotationEntryView;

    open spec fn view(&self) -> AnnotationEntryView {
        match self {
            AnnotationEntry::Term(name) => AnnotationEntryView::Term(name.deep_view()),
            AnnotationEntry::Literal(value) => AnnotationEntryView::Literal(value@),
        }
    }
}

impl DeepView for AnnotationEntry {
    type V = AnnotationEntryView;

    open spec fn deep_view(&self) -> AnnotationEntryView {
        self@
    }
}

/// One annotation of a field.
#[derive(Clone, Debug, PartialEq, Eq)]
pub enum Annotation {
    /// A grouped argument list with its entries in source order.
    Group(Vec<AnnotationEntry>),
    /// Any other annotation syntax.
    Other,
    /// An annotation that holds a literal which cannot be read.
    Unreadable,
}

/// Mathematical value of an [`Annotation`].
pub enum AnnotationView {
    Group(Seq<AnnotationEntryView>),
    Other,
    Unreadable,
}

impl View for Annotation {
    type V = AnnotationView;

    open spec fn view(&self) -> AnnotationView {
        match self {
            Annotation::Group(entries) => AnnotationView::Group(entries.deep_view()),
            Annotation::Other => AnnotationView::Other,
            Annotation::Unreadable => AnnotationView::Unreadable,
        }
    }
}

impl DeepView for Annotation {
    type V = AnnotationView;

    open spec fn deep_view(&self) -> AnnotationView {
        self@
    }
}

/// A field of the owning record as it is declared.
#[derive(Clone, Debug, PartialEq, Eq)]
pub struct SourceField {
    /// The declared name.
    pub name: String,
    /// The declared type, kept as written.
    pub ty: String,
    /// The annotations in source order.
    pub annotations: Vec<Annotation>,
}

/// Mathematical value of a [`SourceField`].
pub struct SourceFieldView {
    pub name: Seq<char>,
    pub ty: Seq<char>,
    pub annotations: Seq<AnnotationView>,
}

impl View for SourceField {
    type V = SourceFieldView;

    open spec fn view(&self) -> SourceFieldView {
        SourceFieldView {
            name: self.name@,
            ty: self.ty@,
            annotations: self.annotations.deep_view(),
        }
    }
}

impl DeepView for SourceField {
    type V = SourceFieldView;

    open spec fn deep_view(&self) -> SourceFieldView {
        self@
    }
}

/// Why the annotations of a field could not be read.
#[derive(Clone, Debug, PartialEq, Eq)]
pub enum ParseError {
    /// An annotation is not a grouped argument list.
    NotAGroup,
    /// An annotation holds a literal that cannot be read.
    UnreadableLiteral,
    /// A term is neither `const` nor `mut`.
    UnexpectedTerm(Option<String>),
    /// A second mutability term.
    DuplicateKind,
    /// A second literal.
    DuplicateValue,
    /// No mutability term.
    MissingKind,
    /// No literal.
    MissingValue,
}

/// Mathematical value of a [`ParseError`].
pub enum ParseErrorView {
    NotAGroup,
    UnreadableLiteral,
    UnexpectedTerm(Option<Seq<char>>),
    DuplicateKind,
    DuplicateValue,
    MissingKind,
    MissingValue,
}

impl View for ParseError {
    type V = ParseErrorView;

    open spec fn view(&self) -> ParseErrorView {
        match self {
            ParseError::NotAGroup => ParseErrorView::NotAGroup,
            ParseError::UnreadableLiteral => ParseErrorView::UnreadableLiteral,
            ParseError::UnexpectedTerm(term) => ParseErrorView::UnexpectedTerm(term.deep_view()),
            ParseError::DuplicateKind => ParseErrorView::DuplicateKind,
            ParseError::DuplicateValue => ParseErrorView::DuplicateValue,
            ParseError::MissingKind => ParseErrorView::MissingKind,
            ParseError::MissingValue => ParseErrorView::MissingValue,
        }
    }
}

/// The cause of a failure in words.
pub open spec fn parse_error_text(e: ParseErrorView) -> Seq<char> {
    match e {
        ParseErrorView::NotAGroup => "Cannot parse other than a grouped list"@,
        ParseErrorView::UnreadableLiteral => "Cannot read a literal of the annotation"@,
        ParseErrorView::UnexpectedTerm(Some(term)) => "Unexpected term "@ + term,
        ParseErrorView::UnexpectedTerm(None) => "Unexpected term that is not an identifier"@,
        ParseErrorView::DuplicateKind => "Duplication of field terms const, mut"@,
        ParseErrorView::DuplicateValue => "Duplication of field default value"@,
        ParseErrorView::MissingKind => "Field needs to be const or mut"@,
        ParseErrorView::MissingValue => "Field needs a default literal value"@,
    }
}

impl ParseError {
    /// The cause of the failure in words.
    pub fn message(&self) -> (text: String)
        ensures
            text@ == parse_error_text(self@),
    {
        match self {
            ParseError::NotAGroup => String::from_str("Cannot parse other than a grouped list"),
            ParseError::UnreadableLiteral => String::from_str(
                "Cannot read a literal of the annotation",
            ),
            ParseError::UnexpectedTerm(Some(term)) => {
                let mut text = String::from_str("Unexpected term ");
                text.append(term.as_str());
                text
            },
            ParseError::UnexpectedTerm(None) => String::from_str(
                "Unexpected term that is not an identifier",
            ),
            ParseError::DuplicateKind => String::from_str("Duplication of field terms const, mut"),
            ParseError::DuplicateValue => String::from_str("Duplication of field default value"),
            ParseError::MissingKind => String::from_str("Field needs to be const or mut"),
            ParseError::MissingValue => String::from_str("Field needs a default literal value"),
        }
    }
}

/// The descriptor of one field.
#[derive(Clone, Debug, PartialEq, Eq)]
pub struct CornettoField {
    /// The declared name.
    pub ident: String,
    /// The default.
    pub value: DefaultValue,
    /// The mutability class.
    pub kind: CornettoKind,
    /// The declared type, kept as written.
    pub ty: String,
}

/// Mathematical value of a [`CornettoField`].
pub struct CornettoFieldView {
    pub ident: Seq<char>,
    pub value: DefaultValueView,
    pub kind: CornettoKind,
    pub ty: Seq<char>,
}

impl View for CornettoField {
    type V = CornettoFieldView;

    open spec fn view(&self) -> CornettoFieldView {
        CornettoFieldView {
            ident: self.ident@,
            value: self.value@,
            kind: self.kind,
            ty: self.ty@,
        }
    }
}

impl DeepView for CornettoField {
    type V = CornettoFieldView;

    open spec fn deep_view(&self) -> CornettoFieldView {
        self@
    }
}


/// What has been found among the entries of a field so far.
pub struct Scan {
    pub kind: Option<CornettoKind>,
    pub value: Option<DefaultValueView>,
}

/// The class that a term names: `const` names [`CornettoKind::Constant`],
/// `mut` names [`CornettoKind::Testmutable`], and no other term names one.
pub open spec fn kind_of_term(term: Option<Seq<char>>) -> Option<CornettoKind> {
    match term {
        Some(name) => if name == "const"@ {
            Some(CornettoKind::Constant)
        } else if name == "mut"@ {
            Some(CornettoKind::Testmutable)
        } else {
            None
        },
        None => None,
    }
}

/// The scan after one more entry. A term is refused once a class is known,
/// before its name is looked at; a literal is refused once a default is known.
pub open spec fn scan_entry(scan: Scan, entry: AnnotationEntryView) -> Result<
    Scan,
    ParseErrorView,
> {
    match entry {
        AnnotationEntryView::Term(term) => if scan.kind is Some {
            Err(ParseErrorView::DuplicateKind)
        } else {
            match kind_of_term(term) {
                Some(kind) => Ok(Scan { kind: Some(kind), value: scan.value }),
                None => Err(ParseErrorView::UnexpectedTerm(term)),
            }
        },
        AnnotationEntryView::Literal(value) => if scan.value is Some {
            Err(ParseErrorView::DuplicateValue)
        } else {
            Ok(Scan { kind: scan.kind, value: Some(value) })
        },
    }
}

/// The scan after the entries of one group, taken from left to right. The
/// first entry that is refused decides the failure.
pub open spec fn scan_entries(scan: Scan, entries: Seq<AnnotationEntryView>) -> Result<
    Scan,
    ParseErrorView,
>
    decreases entries.len(),
{
    if entries.len() == 0 {
        Ok(scan)
    } else {
        match scan_entries(scan, entries.drop_last()) {
            Ok(before) => scan_entry(before, entries.last()),
            Err(e) => Err(e),
        }
    }
}

/// The scan after one annotation, which has to be a group. An annotation
/// with a literal that cannot be read fails with a cause of its own.
pub open spec fn scan_annotation(scan: Scan, annotation: AnnotationView) -> Result<
    Scan,
    ParseErrorView,
> {
    match annotation {
        AnnotationView::Group(entries) => scan_entries(scan, entries),
        AnnotationView::Other => Err(ParseErrorView::NotAGroup),
        AnnotationView::Unreadable => Err(ParseErrorView::UnreadableLiteral),
    }
}

/// The scan after the annotations of a field, taken in source order. What one
/// group has found counts in the groups after it.
pub open spec fn scan_annotations(scan: Scan, annotations: Seq<AnnotationView>) -> Result<
    Scan,
    ParseErrorView,
>
    decreases annotations.len(),
{
    if annotations.len() == 0 {
        Ok(scan)
    } else {
        match scan_annotations(scan, annotations.drop_last()) {
            Ok(before) => scan_annotation(before, annotations.last()),
            Err(e) => Err(e),
        }
    }
}

/// The descriptor of a field, or the reason why it has none. A failure of the
/// scan comes first, then a missing class, then a missing default.
pub open spec fn parse_field(field: SourceFieldView) -> Result<CornettoFieldView, ParseErrorView> {
    match scan_annotations(Scan { kind: None, value: None }, field.annotations) {
        Err(e) => Err(e),
        Ok(found) => match found.kind {
            None => Err(ParseErrorView::MissingKind),
            Some(kind) => match found.value {
                None => Err(ParseErrorView::MissingValue),
                Some(value) => Ok(
                    CornettoFieldView { ident: field.name, value, kind, ty: field.ty },
                ),
            },
        },
    }
}

/// What the scan holds while it runs.
struct Found {
    kind: Option<CornettoKind>,
    value: Option<DefaultValue>,
}

impl View for Found {
    type V = Scan;

    closed spec fn view(&self) -> Scan {
        Scan { kind: self.kind, value: self.value.deep_view() }
    }
}

/// Mathematical value of the outcome of a scan step.
spec fn outcome(r: Result<Found, ParseError>) -> Result<Scan, ParseErrorView> {
    match r {
        Ok(found) => Ok(found@),
        Err(e) => Err(e@),
    }
}

fn term_kind(term: &Option<String>) -> (kind: Option<CornettoKind>)
    ensures
        kind == kind_of_term(term.deep_view()),
{
    match term {
        Some(name) => {
            if *name == String::from_str("const") {
                Some(CornettoKind::Constant)
            } else if *name == String::from_str("mut") {
                Some(CornettoKind::Testmutable)
            } else {
                None
            }
        },
        None => None,
    }
}

fn duplicate_term(term: &Option<String>) -> (copy: Option<String>)
    ensures
        copy.deep_view() == term.deep_view(),
{
    match term {
        Some(name) => Some(name.clone()),
        None => None,
    }
}

fn take_entry(found: Found, entry: &AnnotationEntry) -> (r: Result<Found, ParseError>)
    ensures
        outcome(r) == scan_entry(found@, entry@),
{
    match entry {
        AnnotationEntry::Term(term) => {
            if found.kind.is_some() {
                return Err(ParseError::DuplicateKind);
            }
            match term_kind(term) {
                Some(kind) => Ok(Found { kind: Some(kind), value: found.value }),
                None => Err(ParseError::UnexpectedTerm(duplicate_term(term))),
            }
        },
        AnnotationEntry::Literal(value) => {
            if found.value.is_some() {
                return Err(ParseError::DuplicateValue);
            }
            Ok(Found { kind: found.kind, value: Some(value.duplicate()) })
        },
    }
}

fn take_group(start: Found, entries: &Vec<AnnotationEntry>) -> (r: Result<Found, ParseError>)
    ensures
        outcome(r) == scan_entries(start@, entries.deep_view()),
{
    let ghost all = entries.deep_view();
    let mut found = Found { kind: start.kind, value: start.value };
    let mut i: usize = 0;
    while i < entries.len()
        invariant
            i <= entries.len(),
            all == entries.deep_view(),
            scan_entries(start@, all.take(i as int)) == Ok::<Scan, ParseErrorView>(found@),
        decreases entries.len() - i,
    {
        let step = take_entry(found, &entries[i]);
        proof {
            assert(all.take(i + 1).drop_last() =~= all.take(i as int));
            assert(all.take(i + 1).last() == entries[i as int]@);
            assert(scan_entries(start@, all.take(i + 1)) == outcome(step));
        }
        match step {
            Ok(next) => {
                found = next;
            },
            Err(e) => {
                proof {
                    lemma_entries_failure_stays(start@, all, i + 1);
                }
                return Err(e);
            },
        }
        i += 1;
    }
    proof {
        assert(all.take(i as int) =~= all);
    }
    Ok(found)
}

/// A scan that has failed on the first `n` entries fails in the same way on
/// all of them.
proof fn lemma_entries_failure_stays(scan: Scan, entries: Seq<AnnotationEntryView>, n: int)
    requires
        0 <= n <= entries.len(),
        scan_entries(scan, entries.take(n)) is Err,
    ensures
        scan_entries(scan, entries) == scan_entries(scan, entries.take(n)),
    decreases entries.len() - n,
{
    if n == entries.len() {
        assert(entries.take(n) =~= entries);
    } else {
        assert(entries.take(n + 1).drop_last() =~= entries.take(n));
        lemma_entries_failure_stays(scan, entries, n + 1);
    }
}

/// A scan that has failed on the first `n` annotations fails in the same way
/// on all of them.
proof fn lemma_annotations_failure_stays(scan: Scan, annotations: Seq<AnnotationView>, n: int)
    requires
        0 <= n <= annotations.len(),
        scan_annotations(scan, annotations.take(n)) is Err,
    ensures
        scan_annotations(scan, annotations) == scan_annotations(scan, annotations.take(n)),
    decreases annotations.len() - n,
{
    if n == annotations.len() {
        assert(annotations.take(n) =~= annotations);
    } else {
        assert(annotations.take(n + 1).drop_last() =~= annotations.take(n));
        lemma_annotations_failure_stays(scan, annotations, n + 1);
    }
}

fn take_annotations(annotations: &Vec<Annotation>) -> (r: Result<Found, ParseError>)
    ensures
        outcome(r) == scan_annotations(Scan { kind: None, value: None }, annotations.deep_view()),
{
    let ghost nothing = Scan { kind: None, value: None };
    let ghost all = annotations.deep_view();
    let mut found = Found { kind: None, value: None };
    let mut i: usize = 0;
    while i < annotations.len()
        invariant
            i <= annotations.len(),
            nothing == (Scan { kind: None, value: None }),
            all == annotations.deep_view(),
            scan_annotations(nothing, all.take(i as int)) == Ok::<Scan, ParseErrorView>(found@),
        decreases annotations.len() - i,
    {
        let step = match &annotations[i] {
            Annotation::Group(entries) => take_group(found, entries),
            Annotation::Other => Err(ParseError::NotAGroup),
            Annotation::Unreadable => Err(ParseError::UnreadableLiteral),
        };
        proof {
            assert(all.take(i + 1).drop_last() =~= all.take(i as int));
            assert(all.take(i + 1).last() == annotations[i as int]@);
            assert(scan_annotations(nothing, all.take(i + 1)) == outcome(step));
        }
        match step {
            Ok(next) => {
                found = next;
            },
            Err(e) => {
                proof {
                    lemma_annotations_failure_stays(nothing, all, i + 1);
                }
                return Err(e);
            },
        }
        i += 1;
    }
    proof {
        assert(all.take(i as int) =~= all);
    }
    Ok(found)
}

/// Whether every field of the list has a descriptor.
pub open spec fn all_parse(fields: Seq<SourceFieldView>) -> bool {
    forall|i: int| 0 <= i < fields.len() ==> (#[trigger] parse_field(fields[i])) is Ok
}

/// The descriptors of the fields of a list in which every field has one.
pub open spec fn descriptors(fields: Seq<SourceFieldView>) -> Seq<CornettoFieldView> {
    Seq::new(fields.len(), |i: int| parse_field(fields[i])->Ok_0)
}

/// Whether `i` is the first field of the list that has no descriptor.
pub open spec fn first_failure(fields: Seq<SourceFieldView>, i: int) -> bool {
    &&& 0 <= i < fields.len()
    &&& parse_field(fields[i]) is Err
    &&& forall|j: int| 0 <= j < i ==> (#[trigger] parse_field(fields[j])) is Ok
}

impl CornettoField {
    /// Reads the annotations of one field into its descriptor.
    pub fn from_source(field: &SourceField) -> (r: Result<CornettoField, ParseError>)
        ensures
            match r {
                Ok(descriptor) => parse_field(field@) == Ok::<CornettoFieldView, ParseErrorView>(
                    descriptor@,
                ),
                Err(e) => parse_field(field@) == Err::<CornettoFieldView, ParseErrorView>(e@),
            },
    {
        let found = match take_annotations(&field.annotations) {
            Ok(found) => found,
            Err(e) => {
                return Err(e);
            },
        };
        let kind = match found.kind {
            Some(kind) => kind,
            None => {
                return Err(ParseError::MissingKind);
            },
        };
        let value = match found.value {
            Some(value) => value,
            None => {
                return Err(ParseError::MissingValue);
            },
        };
        Ok(CornettoField { ident: field.name.clone(), value, kind, ty: field.ty.clone() })
    }

    /// Reads the annotations of every field of a record, in declaration order.
    ///
    /// The result holds one descriptor for each field, in the same order. The
    /// first field that has no descriptor decides the failure.
    pub fn parse(fields: &Vec<SourceField>) -> (r: Result<Vec<CornettoField>, ParseError>)
        ensures
            r is Ok <==> all_parse(fields.deep_view()),
            r matches Ok(parsed) ==> parsed.deep_view() == descriptors(fields.deep_view()),
            r matches Err(e) ==> exists|i: int|
                first_failure(fields.deep_view(), i) && #[trigger] parse_field(fields[i]@) == Err::<
                    CornettoFieldView,
                    ParseErrorView,
                >(e@),
    {
        let mut ret: Vec<CornettoField> = Vec::new();
        let mut i: usize = 0;
        while i < fields.len()
            invariant
                i <= fields.len(),
                ret.len() == i,
                forall|j: int|
                    0 <= j < i ==> parse_field(#[trigger] fields[j]@) == Ok::<
                        CornettoFieldView,
                        ParseErrorView,
                    >(ret[j]@),
            decreases fields.len() - i,
        {
            match CornettoField::from_source(&fields[i]) {
                Ok(descriptor) => {
                    ret.push(descriptor);
                },
                Err(e) => {
                    proof {
                        let all = fields.deep_view();
                        assert(all[i as int] == fields[i as int]@);
                        assert forall|j: int| 0 <= j < i implies (#[trigger] parse_field(
                            all[j],
                        )) is Ok by {
                            assert(all[j] == fields[j]@);
                        }
                        assert(first_failure(all, i as int));
                    }
                    return Err(e);
                },
            }
            i += 1;
        }
        proof {
            let all = fields.deep_view();
            assert forall|j: int| 0 <= j < all.len() implies (#[trigger] parse_field(
                all[j],
            )) is Ok by {
                assert(all[j] == fields[j]@);
            }
            assert(ret.deep_view() =~= descriptors(all));
        }
        Ok(ret)
    }
}

/// The number of mutability terms among the entries of a group.
pub open spec fn count_terms(entries: Seq<AnnotationEntryView>) -> nat
    decreases entries.len(),
{
    if entries.len() == 0 {
        0
    } else {
        count_terms(entries.drop_last()) + if entries.last() is Term {
            1nat
        } else {
            0nat
        }
    }
}

/// The number of literals among the entries of a group.
pub open spec fn count_literals(entries: Seq<AnnotationEntryView>) -> nat
    decreases entries.len(),
{
    if entries.len() == 0 {
        0
    } else {
        count_literals(entries.drop_last()) + if entries.last() is Literal {
            1nat
        } else {
            0nat
        }
    }
}

/// The number of mutability terms in the groups of a field.
pub open spec fn terms_of(annotations: Seq<AnnotationView>) -> nat
    decreases annotations.len(),
{
    if annotations.len() == 0 {
        0
    } else {
        terms_of(annotations.drop_last()) + match annotations.last() {
            AnnotationView::Group(entries) => count_terms(entries),
            _ => 0nat,
        }
    }
}

/// The number of literals in the groups of a field.
pub open spec fn literals_of(annotations: Seq<AnnotationView>) -> nat
    decreases annotations.len(),
{
    if annotations.len() == 0 {
        0
    } else {
        literals_of(annotations.drop_last()) + match annotations.last() {
            AnnotationView::Group(entries) => count_literals(entries),
            _ => 0nat,
        }
    }
}

/// Whether every annotation of the list is a group.
pub open spec fn all_groups(annotations: Seq<AnnotationView>) -> bool {
    forall|i: int| 0 <= i < annotations.len() ==> (#[trigger] annotations[i]) is Group
}

/// The number of classes that a scan holds: one or none.
spec fn kinds_held(scan: Scan) -> nat {
    if scan.kind is Some {
        1
    } else {
        0
    }
}

/// The number of defaults that a scan holds: one or none.
spec fn values_held(scan: Scan) -> nat {
    if scan.value is Some {
        1
    } else {
        0
    }
}

/// A scan that gets through a group holds one class for each term and one
/// default for each literal that it has met.
proof fn lemma_entries_counted(scan: Scan, entries: Seq<AnnotationEntryView>)
    requires
        scan_entries(scan, entries) is Ok,
    ensures
        kinds_held(scan_entries(scan, entries)->Ok_0) == kinds_held(scan) + count_terms(entries),
        values_held(scan_entries(scan, entries)->Ok_0) == values_held(scan) + count_literals(
            entries,
        ),
    decreases entries.len(),
{
    if entries.len() > 0 {
        lemma_entries_counted(scan, entries.drop_last());
    }
}

/// A scan that gets through the annotations of a field has met groups only,
/// and holds one class for each term and one default for each literal in
/// them.
proof fn lemma_annotations_counted(scan: Scan, annotations: Seq<AnnotationView>)
    requires
        scan_annotations(scan, annotations) is Ok,
    ensures
        all_groups(annotations),
        kinds_held(scan_annotations(scan, annotations)->Ok_0) == kinds_held(scan) + terms_of(
            annotations,
        ),
        values_held(scan_annotations(scan, annotations)->Ok_0) == values_held(scan)
            + literals_of(annotations),
    decreases annotations.len(),
{
    if annotations.len() > 0 {
        let before = annotations.drop_last();
        lemma_annotations_counted(scan, before);
        let found = scan_annotations(scan, before)->Ok_0;
        match annotations.last() {
            AnnotationView::Group(entries) => {
                lemma_entries_counted(found, entries);
            },
            _ => {},
        }
        assert forall|i: int| 0 <= i < annotations.len() implies (#[trigger] annotations[i]) is Group by {
            if i < before.len() {
                assert(before[i] == annotations[i]);
            }
        }
    }
}

/// Whether every term among the entries of a group names a class.
pub open spec fn terms_known(entries: Seq<AnnotationEntryView>) -> bool {
    forall|i: int|
        0 <= i < entries.len() ==> ((#[trigger] entries[i]) matches AnnotationEntryView::Term(term)
            ==> kind_of_term(term) is Some)
}

/// Whether every annotation of the list is a group in which every term names
/// a class.
pub open spec fn groups_of_known_terms(annotations: Seq<AnnotationView>) -> bool {
    forall|i: int|
        0 <= i < annotations.len() ==> ((#[trigger] annotations[i]) matches AnnotationView::Group(
            entries,
        ) && terms_known(entries))
}

/// A scan gets through a group in which every term names a class, unless it
/// meets a second term or a second literal.
proof fn lemma_entries_accepted(scan: Scan, entries: Seq<AnnotationEntryView>)
    requires
        terms_known(entries),
        kinds_held(scan) + count_terms(entries) <= 1,
        values_held(scan) + count_literals(entries) <= 1,
    ensures
        scan_entries(scan, entries) is Ok,
    decreases entries.len(),
{
    if entries.len() > 0 {
        let before = entries.drop_last();
        assert forall|i: int| 0 <= i < before.len() implies ((#[trigger] before[i]) matches AnnotationEntryView::Term(
            term,
        ) ==> kind_of_term(term) is Some) by {
            assert(before[i] == entries[i]);
        }
        lemma_entries_accepted(scan, before);
        lemma_entries_counted(scan, before);
        assert(entries.last() == entries[entries.len() - 1]);
    }
}

/// A scan gets through annotations that are groups in which every term names
/// a class, unless it meets a second term or a second literal.
proof fn lemma_annotations_accepted(scan: Scan, annotations: Seq<AnnotationView>)
    requires
        groups_of_known_terms(annotations),
        kinds_held(scan) + terms_of(annotations) <= 1,
        values_held(scan) + literals_of(annotations) <= 1,
    ensures
        scan_annotations(scan, annotations) is Ok,
    decreases annotations.len(),
{
    if annotations.len() > 0 {
        let before = annotations.drop_last();
        assert forall|i: int| 0 <= i < before.len() implies ((#[trigger] before[i]) matches AnnotationView::Group(
            entries,
        ) && terms_known(entries)) by {
            assert(before[i] == annotations[i]);
        }
        lemma_annotations_accepted(scan, before);
        lemma_annotations_counted(scan, before);
        assert(annotations.last() == annotations[annotations.len() - 1]);
        let found = scan_annotations(scan, before)->Ok_0;
        match annotations.last() {
            AnnotationView::Group(entries) => {
                lemma_entries_accepted(found, entries);
            },
            _ => {},
        }
    }
}

/// A scan that gets through a group has met no term that names no class.
proof fn lemma_entries_known(scan: Scan, entries: Seq<AnnotationEntryView>)
    requires
        scan_entries(scan, entries) is Ok,
    ensures
        terms_known(entries),
    decreases entries.len(),
{
    if entries.len() > 0 {
        let before = entries.drop_last();
        lemma_entries_known(scan, before);
        assert forall|i: int| 0 <= i < entries.len() implies ((#[trigger] entries[i]) matches AnnotationEntryView::Term(
            term,
        ) ==> kind_of_term(term) is Some) by {
            if i < before.len() {
                assert(before[i] == entries[i]);
            }
        }
    }
}

/// A scan that gets through the annotations of a field has met groups only,
/// and in them no term that names no class.
proof fn lemma_annotations_known(scan: Scan, annotations: Seq<AnnotationView>)
    requires
        scan_annotations(scan, annotations) is Ok,
    ensures
        groups_of_known_terms(annotations),
    decreases annotations.len(),
{
    if annotations.len() > 0 {
        let before = annotations.drop_last();
        lemma_annotations_known(scan, before);
        let found = scan_annotations(scan, before)->Ok_0;
        match annotations.last() {
            AnnotationView::Group(entries) => {
                lemma_entries_known(found, entries);
            },
            _ => {},
        }
        assert forall|i: int| 0 <= i < annotations.len() implies ((#[trigger] annotations[i]) matches AnnotationView::Group(
            entries,
        ) && terms_known(entries)) by {
            if i < before.len() {
                assert(before[i] == annotations[i]);
            }
        }
    }
}

/// A field has a descriptor exactly if all its annotations are groups, every
/// term in them names a class, and they hold one term and one literal between
/// them.
pub proof fn lemma_descriptor_exactly_if_well_annotated(field: SourceFieldView)
    ensures
        parse_field(field) is Ok <==> {
            &&& groups_of_known_terms(field.annotations)
            &&& terms_of(field.annotations) == 1
            &&& literals_of(field.annotations) == 1
        },
{
    let nothing = Scan { kind: None, value: None };
    if parse_field(field) is Ok {
        lemma_annotations_counted(nothing, field.annotations);
        lemma_annotations_known(nothing, field.annotations);
    }
    if groups_of_known_terms(field.annotations) && terms_of(field.annotations) == 1 && literals_of(
        field.annotations,
    ) == 1 {
        lemma_annotations_accepted(nothing, field.annotations);
        lemma_annotations_counted(nothing, field.annotations);
    }
}

/// The descriptors of a list keep the declaration order: each has the
/// declared name and type of the field at its place.
pub proof fn lemma_descriptors_keep_order(fields: Seq<SourceFieldView>)
    requires
        all_parse(fields),
    ensures
        descriptors(fields).len() == fields.len(),
        forall|i: int|
            0 <= i < fields.len() ==> (#[trigger] descriptors(fields)[i]).ident == fields[i].name
                && descriptors(fields)[i].ty == fields[i].ty,
{
    assert forall|i: int| 0 <= i < fields.len() implies (#[trigger] descriptors(fields)[i]).ident
        == fields[i].name && descriptors(fields)[i].ty == fields[i].ty by {
        assert(parse_field(fields[i]) is Ok);
    }
}

/// A field has a descriptor only if all its annotations are groups and these
/// hold exactly one mutability term and exactly one literal between them. So
/// a field with no term or with two, or with no literal or with two, has
/// none.
pub proof fn lemma_descriptor_needs_one_of_each(field: SourceFieldView)
    requires
        parse_field(field) is Ok,
    ensures
        all_groups(field.annotations),
        terms_of(field.annotations) == 1,
        literals_of(field.annotations) == 1,
{
    lemma_annotations_counted(Scan { kind: None, value: None }, field.annotations);
}

/// A list with a field that has no mutability term or more than one, or no
/// literal or more than one, has no descriptors: reading it fails.
pub proof fn lemma_list_needs_one_of_each(fields: Seq<SourceFieldView>, i: int)
    requires
        0 <= i < fields.len(),
        terms_of(fields[i].annotations) != 1 || literals_of(fields[i].annotations) != 1,
    ensures
        !all_parse(fields),
{
    if parse_field(fields[i]) is Ok {
        lemma_descriptor_needs_one_of_each(fields[i]);
    }
}

} // verus!
