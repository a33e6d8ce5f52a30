//! What a generated companion does when it is used.
//!
//! The model follows the generated procedures one by one. A constant is found
//! by its name. The shadow state is the instance of the owning type that the
//! mutex guards: a map from field names to values, built by the
//! default-construction procedure. An accessor reads the constant, or in an
//! instrumented build, where it is shadowed, the field of its own name from
//! the shadow state. The reset procedure assigns its arguments to the fields
//! of the shadow state in one step.

use crate::fields::{
    CornettoField, CornettoFieldView, CornettoKind, DefaultValue, DefaultValueView,
};
use crate::quotes::{
    constant_name, constant_name_of, generated_type, lemma_reset_param_of_field,
    lemma_reset_params_step,
    reset_params_of, reset_position, AccessorView, ConstantView, DefaultFieldView, GeneratedType,
    GeneratedTypeView, ResetParamView,
};
use vstd::prelude::*;
use vstd::string::*;

verus! {

/// The build that a companion is compiled into.
#[derive(Clone, Copy, Debug, PartialEq, Eq, Structural)]
pub enum BuildMode {
    /// A production build, which holds no shadow state.
    Production,
    /// An instrumented build, in which tests may replace values.
    Instrumented,
}

/// The value of the constant `name`, if one is declared. Among constants of
/// one name the last is taken; generated names are meant to be distinct.
pub open spec fn constant_value(constants: Seq<ConstantView>, name: Seq<char>) -> Option<
    DefaultValueView,
>
    decreases constants.len(),
{
    if constants.len() == 0 {
        None
    } else if constants.last().name == name {
        Some(constants.last().value)
    } else {
        constant_value(constants.drop_last(), name)
    }
}

/// The instance of the owning type that the default-construction procedure
/// builds: every field holds the value of its constant.
pub open spec fn default_instance(
    constants: Seq<ConstantView>,
    default_fields: Seq<DefaultFieldView>,
) -> Map<Seq<char>, DefaultValueView>
    decreases default_fields.len(),
{
    if default_fields.len() == 0 {
        Map::empty()
    } else {
        let before = default_instance(constants, default_fields.drop_last());
        match constant_value(constants, default_fields.last().constant) {
            Some(value) => before.insert(default_fields.last().field, value),
            None => before,
        }
    }
}

/// The shadow state after the reset procedure has run with `values` for its
/// parameters: every parameter has been assigned to the field of its name.
pub open spec fn after_reset(
    shadow: Map<Seq<char>, DefaultValueView>,
    params: Seq<ResetParamView>,
    values: Seq<DefaultValueView>,
) -> Map<Seq<char>, DefaultValueView>
    recommends
        params.len() == values.len(),
    decreases params.len(),
{
    if params.len() == 0 {
        shadow
    } else {
        after_reset(shadow, params.drop_last(), values.drop_last()).insert(
            params.last().name,
            values.last(),
        )
    }
}

/// Whether an accessor reads the shadow state in a build.
pub open spec fn reads_shadow(accessor: AccessorView, mode: BuildMode) -> bool {
    accessor.shadowed && mode == BuildMode::Instrumented
}

/// What an accessor returns in a build with the given shadow state.
pub open spec fn read(
    generated: GeneratedTypeView,
    mode: BuildMode,
    shadow: Map<Seq<char>, DefaultValueView>,
    accessor: AccessorView,
) -> Option<DefaultValueView> {
    if reads_shadow(accessor, mode) {
        if shadow.dom().contains(accessor.name) {
            Some(shadow[accessor.name])
        } else {
            None
        }
    } else {
        constant_value(generated.constants, accessor.constant)
    }
}

/// The shadow state of a companion that has just been built. Only an
/// instrumented build of a companion with a reset procedure holds one; there
/// it is the instance that the default-construction procedure builds.
pub open spec fn initial_shadow(generated: GeneratedTypeView, mode: BuildMode) -> Map<
    Seq<char>,
    DefaultValueView,
> {
    if mode == BuildMode::Instrumented && generated.reset.len() > 0 {
        default_instance(generated.constants, generated.default_fields)
    } else {
        Map::empty()
    }
}

/// The accessor `name`, if the companion has one. Among accessors of one name
/// the last is taken; the names of fields are meant to be distinct.
pub open spec fn accessor_named(accessors: Seq<AccessorView>, name: Seq<char>) -> Option<
    AccessorView,
>
    decreases accessors.len(),
{
    if accessors.len() == 0 {
        None
    } else if accessors.last().name == name {
        Some(accessors.last())
    } else {
        accessor_named(accessors.drop_last(), name)
    }
}

/// What a call of the accessor `name` returns, if there is such an accessor.
pub open spec fn call(
    generated: GeneratedTypeView,
    mode: BuildMode,
    shadow: Map<Seq<char>, DefaultValueView>,
    name: Seq<char>,
) -> Option<DefaultValueView> {
    match accessor_named(generated.accessors, name) {
        Some(accessor) => read(generated, mode, shadow, accessor),
        None => None,
    }
}

/// Whether no two fields of the list have the same name.
pub open spec fn distinct_names(fields: Seq<CornettoFieldView>) -> bool {
    forall|i: int, j: int|
        0 <= i < j < fields.len() ==> (#[trigger] fields[i]).ident != (#[trigger] fields[j]).ident
}

/// Whether no two fields of the list get a constant of the same name.
pub open spec fn distinct_constants(owner: Seq<char>, fields: Seq<CornettoFieldView>) -> bool {
    forall|i: int, j: int|
        0 <= i < j < fields.len() ==> constant_name(owner, (#[trigger] fields[i]).ident)
            != constant_name(owner, (#[trigger] fields[j]).ident)
}

/// Among constants of distinct names, each is found by its name.
proof fn lemma_constant_found(constants: Seq<ConstantView>, i: int)
    requires
        0 <= i < constants.len(),
        forall|a: int, b: int|
            0 <= a < b < constants.len() ==> (#[trigger] constants[a]).name != (
            #[trigger] constants[b]).name,
    ensures
        constant_value(constants, constants[i].name) == Some(constants[i].value),
    decreases constants.len(),
{
    if i < constants.len() - 1 {
        let before = constants.drop_last();
        assert(constants[i].name != constants[constants.len() - 1].name);
        assert(before[i] == constants[i]);
        assert forall|a: int, b: int| 0 <= a < b < before.len() implies (#[trigger] before[a]).name
            != (#[trigger] before[b]).name by {
            assert(before[a] == constants[a]);
            assert(before[b] == constants[b]);
        }
        lemma_constant_found(before, i);
    }
}

/// After default construction a field whose name no other field has holds
/// the value of its constant.
proof fn lemma_default_instance_holds(
    constants: Seq<ConstantView>,
    default_fields: Seq<DefaultFieldView>,
    j: int,
    value: DefaultValueView,
)
    requires
        0 <= j < default_fields.len(),
        forall|a: int, b: int|
            0 <= a < b < default_fields.len() ==> (#[trigger] default_fields[a]).field != (
            #[trigger] default_fields[b]).field,
        constant_value(constants, default_fields[j].constant) == Some(value),
    ensures
        default_instance(constants, default_fields).dom().contains(default_fields[j].field),
        default_instance(constants, default_fields)[default_fields[j].field] == value,
    decreases default_fields.len(),
{
    if j < default_fields.len() - 1 {
        let before = default_fields.drop_last();
        assert(default_fields[j].field != default_fields[default_fields.len() - 1].field);
        assert(before[j] == default_fields[j]);
        assert forall|a: int, b: int| 0 <= a < b < before.len() implies (#[trigger] before[a]).field
            != (#[trigger] before[b]).field by {
            assert(before[a] == default_fields[a]);
            assert(before[b] == default_fields[b]);
        }
        lemma_default_instance_holds(constants, before, j, value);
    }
}

/// After a reset a field that tests may replace, and whose name no other
/// field has, holds the argument at its position.
proof fn lemma_reset_assigns(
    fields: Seq<CornettoFieldView>,
    shadow: Map<Seq<char>, DefaultValueView>,
    values: Seq<DefaultValueView>,
    j: int,
)
    requires
        distinct_names(fields),
        values.len() == reset_params_of(fields).len(),
        0 <= j < fields.len(),
        fields[j].kind == CornettoKind::Testmutable,
    ensures
        0 <= reset_position(fields, j) < values.len(),
        after_reset(shadow, reset_params_of(fields), values).dom().contains(fields[j].ident),
        after_reset(shadow, reset_params_of(fields), values)[fields[j].ident] == values[reset_position(
            fields,
            j,
        )],
    decreases fields.len(),
{
    let n = fields.len() - 1;
    let before = fields.take(n);
    assert(fields.take(n + 1) =~= fields);
    lemma_reset_params_step(fields, n);
    if j == n {
    } else {
        assert(before.take(j) =~= fields.take(j));
        assert(before[j] == fields[j]);
        assert forall|a: int, b: int| 0 <= a < b < before.len() implies (#[trigger] before[a]).ident
            != (#[trigger] before[b]).ident by {
            assert(before[a] == fields[a]);
            assert(before[b] == fields[b]);
        }
        if fields[n].kind == CornettoKind::Testmutable {
            let params = reset_params_of(before);
            assert(reset_params_of(fields).drop_last() =~= params);
            assert(fields[j].ident != fields[n].ident);
            lemma_reset_assigns(before, shadow, values.drop_last(), j);
        } else {
            lemma_reset_assigns(before, shadow, values, j);
        }
    }
}

/// The companion has one accessor for each field, in declaration order. The
/// accessor has the name of the field and returns its declared type, as an
/// owned string where the default is textual.
pub proof fn lemma_accessor_for_each_field(owner: Seq<char>, fields: Seq<CornettoFieldView>)
    ensures
        generated_type(owner, fields).accessors.len() == fields.len(),
        forall|i: int|
            0 <= i < fields.len() ==> {
                let accessor = #[trigger] generated_type(owner, fields).accessors[i];
                &&& accessor.name == fields[i].ident
                &&& accessor.ty == fields[i].ty
                &&& accessor.owned == fields[i].value.textual
            },
{
}

/// The accessor of a constant field returns the default of the field in every
/// build, whatever the shadow state holds, and does not read the shadow
/// state.
pub proof fn lemma_constant_field_reads_default(
    owner: Seq<char>,
    fields: Seq<CornettoFieldView>,
    i: int,
    mode: BuildMode,
    shadow: Map<Seq<char>, DefaultValueView>,
)
    requires
        distinct_constants(owner, fields),
        0 <= i < fields.len(),
        fields[i].kind == CornettoKind::Constant,
    ensures
        !reads_shadow(generated_type(owner, fields).accessors[i], mode),
        read(generated_type(owner, fields), mode, shadow, generated_type(owner, fields).accessors[i])
            == Some(fields[i].value),
{
    lemma_generated_constant_found(owner, fields, i);
}

/// In the companion of fields with distinct constant names, the constant of
/// each field is found by its name and holds the default of the field.
proof fn lemma_generated_constant_found(owner: Seq<char>, fields: Seq<CornettoFieldView>, i: int)
    requires
        distinct_constants(owner, fields),
        0 <= i < fields.len(),
    ensures
        constant_value(generated_type(owner, fields).constants, constant_name(owner, fields[i].ident))
            == Some(fields[i].value),
{
    let constants = generated_type(owner, fields).constants;
    assert forall|a: int, b: int| 0 <= a < b < constants.len() implies (#[trigger] constants[a]).name
        != (#[trigger] constants[b]).name by {
        assert(constants[a].name == constant_name(owner, fields[a].ident));
        assert(constants[b].name == constant_name(owner, fields[b].ident));
    }
    lemma_constant_found(constants, i);
}

/// In a production build the accessor of a field that tests may replace
/// returns the default of the field, whatever the shadow state holds.
pub proof fn lemma_production_reads_default(
    owner: Seq<char>,
    fields: Seq<CornettoFieldView>,
    i: int,
    shadow: Map<Seq<char>, DefaultValueView>,
)
    requires
        distinct_constants(owner, fields),
        0 <= i < fields.len(),
    ensures
        read(
            generated_type(owner, fields),
            BuildMode::Production,
            shadow,
            generated_type(owner, fields).accessors[i],
        ) == Some(fields[i].value),
{
    lemma_generated_constant_found(owner, fields, i);
}

/// In an instrumented build, before any reset, the accessor of every field
/// returns the default of the field.
pub proof fn lemma_default_before_reset(owner: Seq<char>, fields: Seq<CornettoFieldView>, i: int)
    requires
        distinct_names(fields),
        distinct_constants(owner, fields),
        0 <= i < fields.len(),
    ensures
        read(
            generated_type(owner, fields),
            BuildMode::Instrumented,
            initial_shadow(generated_type(owner, fields), BuildMode::Instrumented),
            generated_type(owner, fields).accessors[i],
        ) == Some(fields[i].value),
{
    let generated = generated_type(owner, fields);
    lemma_generated_constant_found(owner, fields, i);
    if fields[i].kind == CornettoKind::Testmutable {
        lemma_reset_param_of_field(fields, i);
    }
    let defaults = generated.default_fields;
    assert forall|a: int, b: int| 0 <= a < b < defaults.len() implies (#[trigger] defaults[a]).field
        != (#[trigger] defaults[b]).field by {
        assert(defaults[a].field == fields[a].ident);
        assert(defaults[b].field == fields[b].ident);
    }
    lemma_default_instance_holds(generated.constants, defaults, i, fields[i].value);
}

/// In an instrumented build, after a reset, the accessor of a field that
/// tests may replace returns the argument that the reset was given for it:
/// the one at the position of the field among the fields that tests may
/// replace. It does so from any shadow state, so until the next reset.
pub proof fn lemma_reset_value_is_read(
    owner: Seq<char>,
    fields: Seq<CornettoFieldView>,
    shadow: Map<Seq<char>, DefaultValueView>,
    values: Seq<DefaultValueView>,
    i: int,
)
    requires
        distinct_names(fields),
        values.len() == generated_type(owner, fields).reset.len(),
        0 <= i < fields.len(),
        fields[i].kind == CornettoKind::Testmutable,
    ensures
        0 <= reset_position(fields, i) < values.len(),
        read(
            generated_type(owner, fields),
            BuildMode::Instrumented,
            after_reset(shadow, generated_type(owner, fields).reset, values),
            generated_type(owner, fields).accessors[i],
        ) == Some(values[reset_position(fields, i)]),
{
    lemma_reset_assigns(fields, shadow, values, i);
}

/// One assignment to a field of the shadow state.
#[derive(Clone, Debug, PartialEq, Eq)]
pub struct Slot {
    /// The field.
    pub field: String,
    /// The value that it was given.
    pub value: DefaultValue,
}

/// Mathematical value of a [`Slot`].
pub struct SlotView {
    pub field: Seq<char>,
    pub value: DefaultValueView,
}

impl View for Slot {
    type V = SlotView;

    open spec fn view(&self) -> SlotView {
        SlotView { field: self.field@, value: self.value@ }
    }
}

impl DeepView for Slot {
    type V = SlotView;

    open spec fn deep_view(&self) -> SlotView {
        self@
    }
}

/// The shadow state that a list of assignments leaves: each field holds what
/// it was given last.
pub open spec fn slots_state(slots: Seq<SlotView>) -> Map<Seq<char>, DefaultValueView>
    decreases slots.len(),
{
    if slots.len() == 0 {
        Map::empty()
    } else {
        slots_state(slots.drop_last()).insert(slots.last().field, slots.last().value)
    }
}

/// A companion in use: the build that it was compiled into and its shadow
/// state, kept as the assignments that were made to it.
#[derive(Clone, Debug, PartialEq, Eq)]
pub struct Instance {
    /// The build.
    pub mode: BuildMode,
    /// The assignments to the shadow state, oldest first.
    pub shadow: Vec<Slot>,
}

/// Mathematical value of an [`Instance`].
pub struct InstanceView {
    pub mode: BuildMode,
    pub shadow: Map<Seq<char>, DefaultValueView>,
}

impl View for Instance {
    type V = InstanceView;

    open spec fn view(&self) -> InstanceView {
        InstanceView { mode: self.mode, shadow: slots_state(self.shadow.deep_view()) }
    }
}

fn same_text(a: &str, b: &str) -> (same: bool)
    ensures
        same == (a@ == b@),
{
    String::from_str(a) == String::from_str(b)
}

fn slot_value(slots: &Vec<Slot>, field: &str) -> (value: Option<DefaultValue>)
    ensures
        value is Some <==> slots_state(slots.deep_view()).dom().contains(field@),
        value matches Some(v) ==> v@ == slots_state(slots.deep_view())[field@],
{
    let ghost all = slots.deep_view();
    let mut i: usize = slots.len();
    proof {
        assert(all.take(i as int) =~= all);
    }
    while i > 0
        invariant
            i <= slots.len(),
            all == slots.deep_view(),
            slots_state(all).dom().contains(field@) <==> slots_state(all.take(i as int)).dom().contains(
                field@,
            ),
            slots_state(all).dom().contains(field@) ==> slots_state(all)[field@] == slots_state(
                all.take(i as int),
            )[field@],
        decreases i,
    {
        i -= 1;
        proof {
            assert(all.take(i + 1).drop_last() =~= all.take(i as int));
            assert(all.take(i + 1).last() == slots[i as int]@);
        }
        if same_text(slots[i].field.as_str(), field) {
            return Some(slots[i].value.duplicate());
        }
    }
    proof {
        assert(all.take(0) =~= Seq::empty());
    }
    None
}

impl GeneratedType {
    /// The value of the constant `name`, if the companion declares one.
    pub fn constant(&self, name: &str) -> (value: Option<DefaultValue>)
        ensures
            value.deep_view() == constant_value(self@.constants, name@),
    {
        let ghost all = self@.constants;
        let mut i: usize = self.constants.len();
        proof {
            assert(all.take(i as int) =~= all);
        }
        while i > 0
            invariant
                i <= self.constants.len(),
                all == self.constants.deep_view(),
                constant_value(all, name@) == constant_value(all.take(i as int), name@),
            decreases i,
        {
            i -= 1;
            proof {
                assert(all.take(i + 1).drop_last() =~= all.take(i as int));
                assert(all.take(i + 1).last() == self.constants[i as int]@);
            }
            if same_text(self.constants[i].name.as_str(), name) {
                return Some(self.constants[i].value.duplicate());
            }
        }
        proof {
            assert(all.take(0) =~= Seq::empty());
        }
        None
    }

    /// A companion that has just been built in the given build.
    pub fn instantiate(&self, mode: BuildMode) -> (instance: Instance)
        ensures
            instance@.mode == mode,
            instance@.shadow == initial_shadow(self@, mode),
    {
        let mut shadow: Vec<Slot> = Vec::new();
        let instrumented = match mode {
            BuildMode::Instrumented => true,
            BuildMode::Production => false,
        };
        if instrumented && self.reset.len() > 0 {
            let ghost defaults = self@.default_fields;
            let mut i: usize = 0;
            proof {
                assert(defaults.take(0) =~= Seq::empty());
            }
            while i < self.default_fields.len()
                invariant
                    i <= self.default_fields.len(),
                    defaults == self.default_fields.deep_view(),
                    slots_state(shadow.deep_view()) == default_instance(
                        self@.constants,
                        defaults.take(i as int),
                    ),
                decreases self.default_fields.len() - i,
            {
                let default_field = &self.default_fields[i];
                let ghost before = shadow.deep_view();
                proof {
                    assert(defaults.take(i + 1).drop_last() =~= defaults.take(i as int));
                    assert(defaults.take(i + 1).last() == default_field@);
                }
                match self.constant(default_field.constant.as_str()) {
                    Some(value) => {
                        shadow.push(Slot { field: default_field.field.clone(), value });
                        proof {
                            assert(shadow.deep_view().drop_last() =~= before);
                        }
                    },
                    None => {},
                }
                i += 1;
            }
            proof {
                assert(defaults.take(i as int) =~= defaults);
            }
        }
        Instance { mode, shadow }
    }

    /// Calls the accessor `name` on an instance. It returns what the accessor
    /// returns, and nothing where the companion has no such accessor, or the
    /// accessor reads a constant or a field that does not exist.
    pub fn get(&self, instance: &Instance, name: &str) -> (value: Option<DefaultValue>)
        ensures
            value.deep_view() == call(self@, instance@.mode, instance@.shadow, name@),
    {
        let ghost all = self@.accessors;
        let mut i: usize = self.accessors.len();
        proof {
            assert(all.take(i as int) =~= all);
        }
        while i > 0
            invariant
                i <= self.accessors.len(),
                all == self.accessors.deep_view(),
                accessor_named(all, name@) == accessor_named(all.take(i as int), name@),
            decreases i,
        {
            i -= 1;
            proof {
                assert(all.take(i + 1).drop_last() =~= all.take(i as int));
                assert(all.take(i + 1).last() == self.accessors[i as int]@);
            }
            let accessor = &self.accessors[i];
            if same_text(accessor.name.as_str(), name) {
                let instrumented = match instance.mode {
                    BuildMode::Instrumented => true,
                    BuildMode::Production => false,
                };
                if accessor.shadowed && instrumented {
                    return slot_value(&instance.shadow, accessor.name.as_str());
                } else {
                    return self.constant(accessor.constant.as_str());
                }
            }
        }
        proof {
            assert(all.take(0) =~= Seq::empty());
        }
        None
    }

    /// Calls the reset procedure on an instance.
    ///
    /// The procedure exists in an instrumented build of a companion that has
    /// a parameter for it, and takes one argument for each parameter. Such a
    /// call assigns every argument to its field and returns `true`. Any other
    /// call returns `false` and leaves the instance as it is.
    pub fn reset(&self, instance: &mut Instance, values: &Vec<DefaultValue>) -> (done: bool)
        ensures
            done <==> old(instance)@.mode == BuildMode::Instrumented && self@.reset.len() > 0
                && values.len() == self@.reset.len(),
            done ==> final(instance)@ == (InstanceView {
                mode: old(instance)@.mode,
                shadow: after_reset(old(instance)@.shadow, self@.reset, values.deep_view()),
            }),
            !done ==> final(instance)@ == old(instance)@,
    {
        let instrumented = match instance.mode {
            BuildMode::Instrumented => true,
            BuildMode::Production => false,
        };
        if !instrumented || self.reset.len() == 0 || values.len() != self.reset.len() {
            return false;
        }
        let ghost params = self@.reset;
        let ghost arguments = values.deep_view();
        let mut i: usize = 0;
        proof {
            assert(params.take(0) =~= Seq::empty());
        }
        while i < self.reset.len()
            invariant
                i <= self.reset.len(),
                values.len() == self.reset.len(),
                params == self.reset.deep_view(),
                arguments == values.deep_view(),
                instance.mode == old(instance).mode,
                slots_state(instance.shadow.deep_view()) == after_reset(
                    old(instance)@.shadow,
                    params.take(i as int),
                    arguments.take(i as int),
                ),
            decreases self.reset.len() - i,
        {
            let ghost before = instance.shadow.deep_view();
            instance.shadow.push(
                Slot { field: self.reset[i].name.clone(), value: values[i].duplicate() },
            );
            proof {
                assert(instance.shadow.deep_view().drop_last() =~= before);
                assert(params.take(i + 1).drop_last() =~= params.take(i as int));
                assert(arguments.take(i + 1).drop_last() =~= arguments.take(i as int));
                assert(params.take(i + 1).last() == self.reset[i as int]@);
                assert(arguments.take(i + 1).last() == values[i as int]@);
            }
            i += 1;
        }
        proof {
            assert(params.take(i as int) =~= params);
            assert(arguments.take(i as int) =~= arguments);
        }
        true
    }
}

/// Tests whether no two fields of the list get a constant of the same name
/// in the companion of `name`. The laws on what the accessors return are
/// stated for such lists.
pub fn constants_distinct(name: &str, fields: &Vec<CornettoField>) -> (ok: bool)
    ensures
        ok == distinct_constants(name@, fields.deep_view()),
{
    let ghost all = fields.deep_view();
    let mut names: Vec<String> = Vec::new();
    let mut k: usize = 0;
    while k < fields.len()
        invariant
            k <= fields.len(),
            names.len() == k,
            all == fields.deep_view(),
            forall|a: int| 0 <= a < k ==> (#[trigger] names[a])@ == constant_name(name@, all[a].ident),
        decreases fields.len() - k,
    {
        names.push(constant_name_of(name, fields[k].ident.as_str()));
        k += 1;
    }
    let mut j: usize = 0;
    while j < names.len()
        invariant
            j <= names.len(),
            names.len() == all.len(),
            all == fields.deep_view(),
            forall|a: int|
                0 <= a < names.len() ==> (#[trigger] names[a])@ == constant_name(
                    name@,
                    all[a].ident,
                ),
            forall|a: int, b: int|
                0 <= a < b < j ==> constant_name(name@, (#[trigger] all[a]).ident) != constant_name(
                    name@,
                    (#[trigger] all[b]).ident,
                ),
        decreases names.len() - j,
    {
        let mut i: usize = 0;
        while i < j
            invariant
                i <= j < names.len(),
                names.len() == all.len(),
                all == fields.deep_view(),
                forall|a: int|
                    0 <= a < names.len() ==> (#[trigger] names[a])@ == constant_name(
                        name@,
                        all[a].ident,
                    ),
                forall|a: int|
                    0 <= a < i ==> constant_name(name@, (#[trigger] all[a]).ident)
                        != constant_name(name@, all[j as int].ident),
            decreases j - i,
        {
            if same_text(names[i].as_str(), names[j].as_str()) {
                assert(constant_name(name@, all[i as int].ident) == constant_name(
                    name@,
                    all[j as int].ident,
                ));
                assert(!distinct_constants(name@, all));
                return false;
            }
            i += 1;
        }
        j += 1;
    }
    true
}

} // verus!
