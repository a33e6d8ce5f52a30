//! The companion type that is generated from a list of field descriptors.
//!
//! Every field gives the companion a named constant that holds its default, a
//! field of the default-construction procedure and an accessor. A field that
//! tests may replace also gives it a parameter of the reset procedure.

use crate::fields::{
    CornettoField, CornettoFieldView, CornettoKind, DefaultValue, DefaultValueView,
};
use crate::CornettoError;
use vstd::prelude::*;
use vstd::string::*;

verus! {

/// A named constant that holds the default of one field.
#[derive(Clone, Debug, PartialEq, Eq)]
pub struct Constant {
    /// The name of the constant.
    pub name: String,
    /// The type of the constant: the borrowed string type for a textual
    /// default, the declared type of the field for any other.
    pub ty: String,
    /// The literal that the constant holds.
    pub value: DefaultValue,
}

/// Mathematical value of a [`Constant`].
pub struct ConstantView {
    pub name: Seq<char>,
    pub ty: Seq<char>,
    pub value: DefaultValueView,
}

impl View for Constant {
    type V = ConstantView;

    open spec fn view(&self) -> ConstantView {
        ConstantView { name: self.name@, ty: self.ty@, value: self.value@ }
    }
}

impl DeepView for Constant {
    type V = ConstantView;

    open spec fn deep_view(&self) -> ConstantView {
        self@
    }
}

/// What the default-construction procedure assigns to one field of the
/// owning type.
#[derive(Clone, Debug, PartialEq, Eq)]
pub struct DefaultField {
    /// The field that is assigned.
    pub field: String,
    /// The constant that it is assigned from.
    pub constant: String,
    /// Whether the constant is copied into an owned string first.
    pub owned: bool,
}

/// Mathematical value of a [`DefaultField`].
pub struct DefaultFieldView {
    pub field: Seq<char>,
    pub constant: Seq<char>,
    pub owned: bool,
}

impl View for DefaultField {
    type V = DefaultFieldView;

    open spec fn view(&self) -> DefaultFieldView {
        DefaultFieldView { field: self.field@, constant: self.constant@, owned: self.owned }
    }
}

impl DeepView for DefaultField {
    type V = DefaultFieldView;

    open spec fn deep_view(&self) -> DefaultFieldView {
        self@
    }
}

/// The accessor of one field.
///
/// An accessor that is not shadowed is one procedure for every build mode,
/// which returns the constant. A shadowed accessor is two procedures of the
/// same name, of which a build holds exactly one: in production the one that
/// returns the constant, in instrumented builds the one that locks the shadow
/// state and returns the field of the same name from it.
#[derive(Clone, Debug, PartialEq, Eq)]
pub struct Accessor {
    /// The name of the procedure, which is the name of the field.
    pub name: String,
    /// The type that the procedure returns.
    pub ty: String,
    /// The constant that holds the default of the field.
    pub constant: String,
    /// Whether the value is copied into an owned string before it is
    /// returned.
    pub owned: bool,
    /// Whether instrumented builds read the shadow state.
    pub shadowed: bool,
}

/// Mathematical value of an [`Accessor`].
pub struct AccessorView {
    pub name: Seq<char>,
    pub ty: Seq<char>,
    pub constant: Seq<char>,
    pub owned: bool,
    pub shadowed: bool,
}

impl View for Accessor {
    type V = AccessorView;

    open spec fn view(&self) -> AccessorView {
        AccessorView {
            name: self.name@,
            ty: self.ty@,
            constant: self.constant@,
            owned: self.owned,
            shadowed: self.shadowed,
        }
    }
}

impl DeepView for Accessor {
    type V = AccessorView;

    open spec fn deep_view(&self) -> AccessorView {
        self@
    }
}

/// One parameter of the reset procedure. The procedure assigns it to the
/// field of the same name in the shadow state.
#[derive(Clone, Debug, PartialEq, Eq)]
pub struct ResetParam {
    /// The name of the parameter and of the field.
    pub name: String,
    /// The type of the parameter.
    pub ty: String,
}

/// Mathematical value of a [`ResetParam`].
pub struct ResetParamView {
    pub name: Seq<char>,
    pub ty: Seq<char>,
}

impl View for ResetParam {
    type V = ResetParamView;

    open spec fn view(&self) -> ResetParamView {
        ResetParamView { name: self.name@, ty: self.ty@ }
    }
}

impl DeepView for ResetParam {
    type V = ResetParamView;

    open spec fn deep_view(&self) -> ResetParamView {
        self@
    }
}

/// The companion of one owning type.
///
/// The shadow state and the reset procedure exist exactly when `reset` holds
/// a parameter, and then only in instrumented builds.
#[derive(Clone, Debug, PartialEq, Eq)]
pub struct GeneratedType {
    /// The name of the owning type.
    pub owner: String,
    /// The name of the companion type.
    pub companion: String,
    /// The name of the singleton instance of the companion type.
    pub singleton: String,
    /// The constants, one for each field in declaration order.
    pub constants: Vec<Constant>,
    /// The fields of the default-construction procedure, in declaration
    /// order.
    pub default_fields: Vec<DefaultField>,
    /// The accessors, one for each field in declaration order.
    pub accessors: Vec<Accessor>,
    /// The parameters of the reset procedure, in declaration order.
    pub reset: Vec<ResetParam>,
}

/// Mathematical value of a [`GeneratedType`].
pub struct GeneratedTypeView {
    pub owner: Seq<char>,
    pub companion: Seq<char>,
    pub singleton: Seq<char>,
    pub constants: Seq<ConstantView>,
    pub default_fields: Seq<DefaultFieldView>,
    pub accessors: Seq<AccessorView>,
    pub reset: Seq<ResetParamView>,
}

impl View for GeneratedType {
    type V = GeneratedTypeView;

    open spec fn view(&self) -> GeneratedTypeView {
        GeneratedTypeView {
            owner: self.owner@,
            companion: self.companion@,
            singleton: self.singleton@,
            constants: self.constants.deep_view(),
            default_fields: self.default_fields.deep_view(),
            accessors: self.accessors.deep_view(),
            reset: self.reset.deep_view(),
        }
    }
}

/// The upper-case form of a string, as the standard library computes it.
pub uninterp spec fn uppercase(s: Seq<char>) -> Seq<char>;

/// Calls `str::to_uppercase`. The result is a function of the argument alone
/// and is known to the contracts by the name [`uppercase`].
#[verifier::external_body]
fn to_uppercase(s: &str) -> (upper: String)
    ensures
        upper@ == uppercase(s@),
{
    s.to_uppercase()
}

/// The name of the constant of a field, from the upper-case forms of the
/// names of the owning type and of the field.
pub open spec fn joined_constant_name(owner_upper: Seq<char>, field_upper: Seq<char>) -> Seq<
    char,
> {
    "DEFAULT_"@ + owner_upper + "_"@ + field_upper
}

/// The name of the constant that holds the default of `field` of `owner`.
pub open spec fn constant_name(owner: Seq<char>, field: Seq<char>) -> Seq<char> {
    joined_constant_name(uppercase(owner), uppercase(field))
}

/// Two fields of one owning type whose names differ in upper case get
/// constants of different names.
pub proof fn lemma_constant_names_differ(owner: Seq<char>, first: Seq<char>, second: Seq<char>)
    requires
        uppercase(first) != uppercase(second),
    ensures
        constant_name(owner, first) != constant_name(owner, second),
{
    let head = "DEFAULT_"@ + uppercase(owner) + "_"@;
    let one = constant_name(owner, first);
    let other = constant_name(owner, second);
    assert(one.subrange(head.len() as int, one.len() as int) =~= uppercase(first));
    assert(other.subrange(head.len() as int, other.len() as int) =~= uppercase(second));
}

/// The name of the companion of `owner`.
pub open spec fn companion_name(owner: Seq<char>) -> Seq<char> {
    "Cornetto"@ + owner
}

/// The constant of a field.
pub open spec fn constant_of(owner: Seq<char>, field: CornettoFieldView) -> ConstantView {
    ConstantView {
        name: constant_name(owner, field.ident),
        ty: if field.value.textual {
            "&str"@
        } else {
            field.ty
        },
        value: field.value,
    }
}

/// What the default-construction procedure assigns to a field.
pub open spec fn default_field_of(owner: Seq<char>, field: CornettoFieldView) -> DefaultFieldView {
    DefaultFieldView {
        field: field.ident,
        constant: constant_name(owner, field.ident),
        owned: field.value.textual,
    }
}

/// An accessor of a field that reads the constant `constant`, and in
/// instrumented builds the shadow state where `shadowed` is set.
pub open spec fn accessor_reading(
    constant: Seq<char>,
    field: CornettoFieldView,
    shadowed: bool,
) -> AccessorView {
    AccessorView { name: field.ident, ty: field.ty, constant, owned: field.value.textual, shadowed }
}

/// The accessor of a field. It is shadowed where tests may replace the field.
pub open spec fn accessor_of(owner: Seq<char>, field: CornettoFieldView) -> AccessorView {
    accessor_reading(
        constant_name(owner, field.ident),
        field,
        field.kind == CornettoKind::Testmutable,
    )
}

/// The parameter of the reset procedure for a field.
pub open spec fn reset_param_of(field: CornettoFieldView) -> ResetParamView {
    ResetParamView { name: field.ident, ty: field.ty }
}

/// The parameters of the reset procedure: one for each field that tests may
/// replace, in declaration order.
pub open spec fn reset_params_of(fields: Seq<CornettoFieldView>) -> Seq<ResetParamView>
    decreases fields.len(),
{
    if fields.len() == 0 {
        Seq::empty()
    } else {
        let before = reset_params_of(fields.drop_last());
        if fields.last().kind == CornettoKind::Testmutable {
            before.push(reset_param_of(fields.last()))
        } else {
            before
        }
    }
}

/// The place of the field `i` among the parameters of the reset procedure:
/// the number of fields before it that tests may replace.
pub open spec fn reset_position(fields: Seq<CornettoFieldView>, i: int) -> int {
    reset_params_of(fields.take(i)).len() as int
}

/// The reset procedure of the first `n + 1` fields has the parameters of the
/// first `n` fields, and after them one for the field `n` if tests may
/// replace it.
pub proof fn lemma_reset_params_step(fields: Seq<CornettoFieldView>, n: int)
    requires
        0 <= n < fields.len(),
    ensures
        reset_params_of(fields.take(n + 1)) == if fields[n].kind == CornettoKind::Testmutable {
            reset_params_of(fields.take(n)).push(reset_param_of(fields[n]))
        } else {
            reset_params_of(fields.take(n))
        },
{
    assert(fields.take(n + 1).drop_last() =~= fields.take(n));
    assert(fields.take(n + 1).last() == fields[n]);
}

/// The parameters for the first `n` fields are the first parameters of the
/// reset procedure.
proof fn lemma_reset_params_prefix(fields: Seq<CornettoFieldView>, n: int)
    requires
        0 <= n <= fields.len(),
    ensures
        reset_params_of(fields.take(n)).len() <= reset_params_of(fields).len(),
        forall|k: int|
            0 <= k < reset_params_of(fields.take(n)).len() ==> reset_params_of(fields)[k]
                == #[trigger] reset_params_of(fields.take(n))[k],
    decreases fields.len() - n,
{
    if n == fields.len() {
        assert(fields.take(n) =~= fields);
    } else {
        lemma_reset_params_step(fields, n);
        lemma_reset_params_prefix(fields, n + 1);
        assert forall|k: int| 0 <= k < reset_params_of(fields.take(n)).len() implies reset_params_of(
            fields,
        )[k] == #[trigger] reset_params_of(fields.take(n))[k] by {
            assert(reset_params_of(fields.take(n + 1))[k] == reset_params_of(fields.take(n))[k]);
        }
    }
}

/// The reset procedure has a parameter for every field that tests may
/// replace, at the position of the field, with its name and type.
pub proof fn lemma_reset_param_of_field(fields: Seq<CornettoFieldView>, i: int)
    requires
        0 <= i < fields.len(),
        fields[i].kind == CornettoKind::Testmutable,
    ensures
        0 <= reset_position(fields, i) < reset_params_of(fields).len(),
        reset_params_of(fields)[reset_position(fields, i)] == reset_param_of(fields[i]),
{
    lemma_reset_params_step(fields, i);
    lemma_reset_params_prefix(fields, i + 1);
    let k = reset_position(fields, i);
    assert(reset_params_of(fields.take(i + 1))[k] == reset_param_of(fields[i]));
}

/// The parameters of the reset procedure are in declaration order: of two
/// fields that tests may replace, the one declared first has its parameter
/// first.
pub proof fn lemma_reset_params_in_order(fields: Seq<CornettoFieldView>, i: int, j: int)
    requires
        0 <= i < j < fields.len(),
        fields[i].kind == CornettoKind::Testmutable,
    ensures
        reset_position(fields, i) < reset_position(fields, j),
{
    let upto = fields.take(j);
    assert(upto.take(i + 1) =~= fields.take(i + 1));
    lemma_reset_params_step(fields, i);
    lemma_reset_params_prefix(upto, i + 1);
}

/// The companion of `owner` with the fields `fields`.
pub open spec fn generated_type(owner: Seq<char>, fields: Seq<CornettoFieldView>) -> GeneratedTypeView {
    GeneratedTypeView {
        owner,
        companion: companion_name(owner),
        singleton: uppercase(owner),
        constants: Seq::new(fields.len(), |i: int| constant_of(owner, fields[i])),
        default_fields: Seq::new(fields.len(), |i: int| default_field_of(owner, fields[i])),
        accessors: Seq::new(fields.len(), |i: int| accessor_of(owner, fields[i])),
        reset: reset_params_of(fields),
    }
}

/// Joins the upper-case forms of the names of an owning type and of a field
/// into the name of the constant of that field.
pub fn default_constant_name(owner_upper: &str, field_upper: &str) -> (name: String)
    ensures
        name@ == joined_constant_name(owner_upper@, field_upper@),
{
    let mut name = String::from_str("DEFAULT_");
    name.append(owner_upper);
    name.append("_");
    name.append(field_upper);
    name
}

/// The name of the constant that holds the default of the field `field` of
/// the owning type `owner`.
pub fn constant_name_of(owner: &str, field: &str) -> (name: String)
    ensures
        name@ == constant_name(owner@, field@),
{
    let owner_upper = to_uppercase(owner);
    let field_upper = to_uppercase(field);
    default_constant_name(owner_upper.as_str(), field_upper.as_str())
}

impl GeneratedType {
    /// The companion of an owning type without fields.
    pub fn new(owner: &str) -> (generated: GeneratedType)
        ensures
            generated@ == generated_type(owner@, Seq::empty()),
    {
        let mut companion = String::from_str("Cornetto");
        companion.append(owner);
        let generated = GeneratedType {
            owner: String::from_str(owner),
            companion,
            singleton: to_uppercase(owner),
            constants: Vec::new(),
            default_fields: Vec::new(),
            accessors: Vec::new(),
            reset: Vec::new(),
        };
        proof {
            let expected = generated_type(owner@, Seq::empty());
            assert(generated@.constants =~= expected.constants);
            assert(generated@.default_fields =~= expected.default_fields);
            assert(generated@.accessors =~= expected.accessors);
            assert(generated@.reset =~= expected.reset);
        }
        generated
    }
}

/// Gives the companion the constant of a field and the field's part of the
/// default-construction procedure, and returns the name of the constant.
pub fn quote_default_value(name: &str, field: &CornettoField, generated: &mut GeneratedType) -> (ident:
    String)
    ensures
        ident@ == constant_name(name@, field@.ident),
        final(generated)@ == (GeneratedTypeView {
            constants: old(generated)@.constants.push(constant_of(name@, field@)),
            default_fields: old(generated)@.default_fields.push(default_field_of(name@, field@)),
            ..old(generated)@
        }),
{
    let ident = constant_name_of(name, field.ident.as_str());
    let ty = if field.value.textual {
        String::from_str("&str")
    } else {
        field.ty.clone()
    };
    generated.constants.push(Constant { name: ident.clone(), ty, value: field.value.duplicate() });
    generated.default_fields.push(
        DefaultField {
            field: field.ident.clone(),
            constant: ident.clone(),
            owned: field.value.textual,
        },
    );
    proof {
        assert(generated@.constants =~= old(generated)@.constants.push(constant_of(name@, field@)));
        assert(generated@.default_fields =~= old(generated)@.default_fields.push(
            default_field_of(name@, field@),
        ));
    }
    ident
}

/// Gives the companion the accessor of a field that tests may replace, and
/// the reset procedure a parameter for it.
pub fn write_cornetto_test_mutable_param(
    constant_name: String,
    field: &CornettoField,
    generated: &mut GeneratedType,
)
    ensures
        final(generated)@ == (GeneratedTypeView {
            accessors: old(generated)@.accessors.push(
                accessor_reading(constant_name@, field@, true),
            ),
            reset: old(generated)@.reset.push(reset_param_of(field@)),
            ..old(generated)@
        }),
{
    generated.accessors.push(
        Accessor {
            name: field.ident.clone(),
            ty: field.ty.clone(),
            constant: constant_name,
            owned: field.value.textual,
            shadowed: true,
        },
    );
    generated.reset.push(ResetParam { name: field.ident.clone(), ty: field.ty.clone() });
    proof {
        assert(generated@.accessors =~= old(generated)@.accessors.push(
            accessor_reading(constant_name@, field@, true),
        ));
        assert(generated@.reset =~= old(generated)@.reset.push(reset_param_of(field@)));
    }
}

/// Gives the companion the accessor of a field that keeps its default.
pub fn write_cornetto_constant_param(
    constant_name: String,
    field: &CornettoField,
    generated: &mut GeneratedType,
)
    ensures
        final(generated)@ == (GeneratedTypeView {
            accessors: old(generated)@.accessors.push(
                accessor_reading(constant_name@, field@, false),
            ),
            ..old(generated)@
        }),
{
    generated.accessors.push(
        Accessor {
            name: field.ident.clone(),
            ty: field.ty.clone(),
            constant: constant_name,
            owned: field.value.textual,
            shadowed: false,
        },
    );
    proof {
        assert(generated@.accessors =~= old(generated)@.accessors.push(
            accessor_reading(constant_name@, field@, false),
        ));
    }
}

/// Generates the companion of the owning type `name` from the descriptors of
/// its fields. Generation does not fail.
pub fn write(name: &str, fields: &Vec<CornettoField>) -> (r: Result<GeneratedType, CornettoError>)
    ensures
        r matches Ok(generated) && generated@ == generated_type(name@, fields.deep_view()),
{
    let ghost all = fields.deep_view();
    let mut generated = GeneratedType::new(name);
    let mut i: usize = 0;
    proof {
        assert(all.take(0) =~= Seq::empty());
    }
    while i < fields.len()
        invariant
            i <= fields.len(),
            all == fields.deep_view(),
            generated@ == generated_type(name@, all.take(i as int)),
        decreases fields.len() - i,
    {
        let field = &fields[i];
        let constant_name = quote_default_value(name, field, &mut generated);
        match field.kind {
            CornettoKind::Testmutable => {
                write_cornetto_test_mutable_param(constant_name, field, &mut generated);
            },
            CornettoKind::Constant => {
                write_cornetto_constant_param(constant_name, field, &mut generated);
            },
        }
        proof {
            let next = generated_type(name@, all.take(i + 1));
            assert(all.take(i + 1).drop_last() =~= all.take(i as int));
            assert(all.take(i + 1).last() == field@);
            assert(generated@.constants =~= next.constants);
            assert(generated@.default_fields =~= next.default_fields);
            assert(generated@.accessors =~= next.accessors);
            assert(generated@.reset =~= next.reset);
        }
        i += 1;
    }
    proof {
        assert(all.take(i as int) =~= all);
    }
    Ok(generated)
}

} // verus!
