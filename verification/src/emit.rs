//! The source text of a generated companion.
//!
//! The text is laid out item by item: the constants, the default-construction
//! procedure of the owning type, the declaration of the companion type, its
//! procedures, and the singleton.

use crate::quotes::{
    Accessor, AccessorView, Constant, ConstantView, DefaultField, DefaultFieldView,
    GeneratedType, GeneratedTypeView, ResetParam, ResetParamView,
};
use vstd::prelude::*;
use vstd::string::*;

verus! {

/// The pieces of a text, one after the other.
pub open spec fn concat(pieces: Seq<Seq<char>>) -> Seq<char>
    decreases pieces.len(),
{
    if pieces.len() == 0 {
        Seq::empty()
    } else {
        concat(pieces.drop_last()) + pieces.last()
    }
}

/// The declaration of a constant.
pub open spec fn constant_text(constant: ConstantView) -> Seq<char> {
    "const "@ + constant.name + ": "@ + constant.ty + " = "@ + constant.value.text + ";\n"@
}

/// What follows a value that is copied into an owned string.
pub open spec fn owned_suffix(owned: bool) -> Seq<char> {
    if owned {
        ".to_string()"@
    } else {
        Seq::empty()
    }
}

/// One field of the default-construction procedure.
pub open spec fn default_field_text(field: DefaultFieldView) -> Seq<char> {
    "            "@ + field.field + ": "@ + field.constant + owned_suffix(field.owned) + ",\n"@
}

/// The default-construction procedure of the owning type.
pub open spec fn default_impl_text(generated: GeneratedTypeView) -> Seq<char> {
    "impl Default for "@ + generated.owner
        + " {\n    fn default() -> Self {\n        Self {\n"@ + concat(
        Seq::new(
            generated.default_fields.len(),
            |i: int| default_field_text(generated.default_fields[i]),
        ),
    ) + "        }\n    }\n}\n"@
}

/// The shadow state of the companion: a mutex around an instance of the
/// owning type, held in instrumented builds, and only where the reset
/// procedure has a parameter.
pub open spec fn shadow_text(generated: GeneratedTypeView) -> Seq<char> {
    if generated.reset.len() > 0 {
        "    #[cfg(test)]\n    p_fields: std::sync::Mutex<"@ + generated.owner + ">,\n"@
    } else {
        Seq::empty()
    }
}

/// The declaration of the companion type.
pub open spec fn companion_text(generated: GeneratedTypeView) -> Seq<char> {
    "#[derive(Default)]\npub struct "@ + generated.companion + " {\n"@ + shadow_text(generated)
        + "}\n"@
}

/// The head of an accessor.
pub open spec fn accessor_head_text(accessor: AccessorView) -> Seq<char> {
    "    pub fn "@ + accessor.name + "(&self) -> "@ + accessor.ty + " {\n"@
}

/// The procedure that returns the constant of a field.
pub open spec fn constant_reader_text(accessor: AccessorView) -> Seq<char> {
    accessor_head_text(accessor) + "        "@ + accessor.constant + owned_suffix(accessor.owned)
        + "\n    }\n"@
}

/// The procedure that locks the shadow state and returns a field from it.
pub open spec fn shadow_reader_text(accessor: AccessorView) -> Seq<char> {
    accessor_head_text(accessor) + "        self.p_fields.lock().unwrap()."@ + accessor.name
        + owned_suffix(accessor.owned) + "\n    }\n"@
}

/// An accessor: one procedure, or the two procedures of a shadowed accessor
/// with the build mode that each of them belongs to.
pub open spec fn accessor_text(accessor: AccessorView) -> Seq<char> {
    if accessor.shadowed {
        "    #[cfg(not(test))]\n"@ + constant_reader_text(accessor) + "    #[cfg(test)]\n"@
            + shadow_reader_text(accessor)
    } else {
        constant_reader_text(accessor)
    }
}

/// A parameter of the reset procedure.
pub open spec fn reset_param_text(param: ResetParamView) -> Seq<char> {
    param.name + ": "@ + param.ty + ", "@
}

/// The assignment of a parameter of the reset procedure to its field.
pub open spec fn reset_assignment_text(param: ResetParamView) -> Seq<char> {
    "        lock."@ + param.name + " = "@ + param.name + ";\n"@
}

/// The head of the reset procedure, with its parameters.
pub open spec fn reset_head_text(params: Seq<ResetParamView>) -> Seq<char> {
    "    #[cfg(test)]\n    pub fn _reset(&self, "@ + concat(
        Seq::new(params.len(), |i: int| reset_param_text(params[i])),
    ) + ") {\n"@
}

/// The statement that takes the lock of the shadow state. The lock is held
/// until the procedure ends.
pub open spec fn lock_text() -> Seq<char> {
    "        let mut lock = self.p_fields.lock().unwrap();\n"@
}

/// The assignments of the reset procedure, one for each parameter.
pub open spec fn reset_assignments_text(params: Seq<ResetParamView>) -> Seq<char> {
    concat(Seq::new(params.len(), |i: int| reset_assignment_text(params[i])))
}

/// The reset procedure, which exists in instrumented builds where it has a
/// parameter. It takes the lock of the shadow state and then assigns every
/// parameter.
pub open spec fn reset_text(params: Seq<ResetParamView>) -> Seq<char> {
    if params.len() > 0 {
        reset_head_text(params) + lock_text() + reset_assignments_text(params) + "    }\n"@
    } else {
        Seq::empty()
    }
}

/// A text that is made of pieces is made of the pieces before one of them,
/// that piece, and the pieces after it.
proof fn lemma_concat_around(pieces: Seq<Seq<char>>, k: int)
    requires
        0 <= k < pieces.len(),
    ensures
        concat(pieces) == concat(pieces.take(k)) + pieces[k] + concat(pieces.skip(k + 1)),
    decreases pieces.len(),
{
    let n = pieces.len() - 1;
    if k == n {
        assert(pieces.drop_last() =~= pieces.take(k));
        assert(pieces.skip(k + 1) =~= Seq::<Seq<char>>::empty());
        assert(concat(pieces) =~= concat(pieces.take(k)) + pieces[k] + concat(pieces.skip(k + 1)));
    } else {
        let before = pieces.drop_last();
        lemma_concat_around(before, k);
        assert(before.take(k) =~= pieces.take(k));
        assert(pieces.skip(k + 1).drop_last() =~= before.skip(k + 1));
        assert(pieces.skip(k + 1).last() == pieces.last());
        assert(concat(pieces) =~= concat(pieces.take(k)) + pieces[k] + concat(pieces.skip(k + 1)));
    }
}

/// In the text of the reset procedure every assignment stands after the
/// statement that takes the lock: the text is the head, that statement, the
/// assignments and the end, and the assignment of each parameter is one piece
/// of the assignments.
pub proof fn lemma_reset_assigns_after_lock(params: Seq<ResetParamView>, k: int)
    requires
        0 <= k < params.len(),
    ensures
        exists|before: Seq<char>, after: Seq<char>|
            #![trigger before + reset_assignment_text(params[k]) + after]
            {
                &&& reset_assignments_text(params) == before + reset_assignment_text(params[k])
                    + after
                &&& reset_text(params) == reset_head_text(params) + lock_text() + (before
                    + reset_assignment_text(params[k]) + after) + "    }\n"@
            },
{
    let pieces = Seq::new(params.len(), |i: int| reset_assignment_text(params[i]));
    lemma_concat_around(pieces, k);
    let before = concat(pieces.take(k));
    let after = concat(pieces.skip(k + 1));
    assert(reset_assignments_text(params) == before + reset_assignment_text(params[k]) + after);
}

/// The procedures of the companion type.
pub open spec fn procedures_text(generated: GeneratedTypeView) -> Seq<char> {
    "impl "@ + generated.companion + " {\n"@ + concat(
        Seq::new(generated.accessors.len(), |i: int| accessor_text(generated.accessors[i])),
    ) + reset_text(generated.reset) + "}\n"@
}

/// The singleton: one instance of the companion type, built by its
/// default-construction procedure when it is first used.
pub open spec fn singleton_text(generated: GeneratedTypeView) -> Seq<char> {
    "lazy_static::lazy_static! {\n    pub static ref "@ + generated.singleton + ": "@
        + generated.companion + " = "@ + generated.companion + "::default();\n}\n"@
}

/// The source text of a companion.
pub open spec fn source_text(generated: GeneratedTypeView) -> Seq<char> {
    concat(Seq::new(generated.constants.len(), |i: int| constant_text(generated.constants[i])))
        + default_impl_text(generated) + companion_text(generated) + procedures_text(generated)
        + singleton_text(generated)
}

fn append_owned_suffix(text: &mut String, owned: bool)
    ensures
        final(text)@ == old(text)@ + owned_suffix(owned),
{
    if owned {
        text.append(".to_string()");
    } else {
        assert(text@ + Seq::<char>::empty() =~= text@);
    }
}

fn emit_constants(constants: &Vec<Constant>) -> (text: String)
    ensures
        text@ == concat(Seq::new(constants.len() as nat, |i: int| constant_text(constants[i]@))),
{
    let mut text = String::new();
    let mut i: usize = 0;
    while i < constants.len()
        invariant
            i <= constants.len(),
            text@ == concat(Seq::new(i as nat, |k: int| constant_text(constants[k]@))),
        decreases constants.len() - i,
    {
        let constant = &constants[i];
        text.append("const ");
        text.append(constant.name.as_str());
        text.append(": ");
        text.append(constant.ty.as_str());
        text.append(" = ");
        text.append(constant.value.text.as_str());
        text.append(";\n");
        proof {
            let done = Seq::new(i as nat, |k: int| constant_text(constants[k]@));
            let next = Seq::new((i + 1) as nat, |k: int| constant_text(constants[k]@));
            assert(next.drop_last() =~= done);
            assert(text@ =~= concat(done) + constant_text(constant@));
        }
        i += 1;
    }
    text
}

fn emit_default_fields(fields: &Vec<DefaultField>) -> (text: String)
    ensures
        text@ == concat(Seq::new(fields.len() as nat, |i: int| default_field_text(fields[i]@))),
{
    let mut text = String::new();
    let mut i: usize = 0;
    while i < fields.len()
        invariant
            i <= fields.len(),
            text@ == concat(Seq::new(i as nat, |k: int| default_field_text(fields[k]@))),
        decreases fields.len() - i,
    {
        let field = &fields[i];
        text.append("            ");
        text.append(field.field.as_str());
        text.append(": ");
        text.append(field.constant.as_str());
        append_owned_suffix(&mut text, field.owned);
        text.append(",\n");
        proof {
            let done = Seq::new(i as nat, |k: int| default_field_text(fields[k]@));
            let next = Seq::new((i + 1) as nat, |k: int| default_field_text(fields[k]@));
            assert(next.drop_last() =~= done);
            assert(text@ =~= concat(done) + default_field_text(field@));
        }
        i += 1;
    }
    text
}

fn append_accessor_head(text: &mut String, accessor: &Accessor)
    ensures
        final(text)@ == old(text)@ + accessor_head_text(accessor@),
{
    text.append("    pub fn ");
    text.append(accessor.name.as_str());
    text.append("(&self) -> ");
    text.append(accessor.ty.as_str());
    text.append(" {\n");
    proof {
        assert(text@ =~= old(text)@ + accessor_head_text(accessor@));
    }
}

fn append_constant_reader(text: &mut String, accessor: &Accessor)
    ensures
        final(text)@ == old(text)@ + constant_reader_text(accessor@),
{
    append_accessor_head(text, accessor);
    text.append("        ");
    text.append(accessor.constant.as_str());
    append_owned_suffix(text, accessor.owned);
    text.append("\n    }\n");
    proof {
        assert(text@ =~= old(text)@ + constant_reader_text(accessor@));
    }
}

fn append_shadow_reader(text: &mut String, accessor: &Accessor)
    ensures
        final(text)@ == old(text)@ + shadow_reader_text(accessor@),
{
    append_accessor_head(text, accessor);
    text.append("        self.p_fields.lock().unwrap().");
    text.append(accessor.name.as_str());
    append_owned_suffix(text, accessor.owned);
    text.append("\n    }\n");
    proof {
        assert(text@ =~= old(text)@ + shadow_reader_text(accessor@));
    }
}

fn emit_accessors(accessors: &Vec<Accessor>) -> (text: String)
    ensures
        text@ == concat(Seq::new(accessors.len() as nat, |i: int| accessor_text(accessors[i]@))),
{
    let mut text = String::new();
    let mut i: usize = 0;
    while i < accessors.len()
        invariant
            i <= accessors.len(),
            text@ == concat(Seq::new(i as nat, |k: int| accessor_text(accessors[k]@))),
        decreases accessors.len() - i,
    {
        let accessor = &accessors[i];
        if accessor.shadowed {
            text.append("    #[cfg(not(test))]\n");
            append_constant_reader(&mut text, accessor);
            text.append("    #[cfg(test)]\n");
            append_shadow_reader(&mut text, accessor);
        } else {
            append_constant_reader(&mut text, accessor);
        }
        proof {
            let done = Seq::new(i as nat, |k: int| accessor_text(accessors[k]@));
            let next = Seq::new((i + 1) as nat, |k: int| accessor_text(accessors[k]@));
            assert(next.drop_last() =~= done);
            assert(text@ =~= concat(done) + accessor_text(accessor@));
        }
        i += 1;
    }
    text
}

fn emit_reset_params(params: &Vec<ResetParam>) -> (text: String)
    ensures
        text@ == concat(Seq::new(params.len() as nat, |i: int| reset_param_text(params[i]@))),
{
    let mut text = String::new();
    let mut i: usize = 0;
    while i < params.len()
        invariant
            i <= params.len(),
            text@ == concat(Seq::new(i as nat, |k: int| reset_param_text(params[k]@))),
        decreases params.len() - i,
    {
        let param = &params[i];
        text.append(param.name.as_str());
        text.append(": ");
        text.append(param.ty.as_str());
        text.append(", ");
        proof {
            let done = Seq::new(i as nat, |k: int| reset_param_text(params[k]@));
            let next = Seq::new((i + 1) as nat, |k: int| reset_param_text(params[k]@));
            assert(next.drop_last() =~= done);
            assert(text@ =~= concat(done) + reset_param_text(param@));
        }
        i += 1;
    }
    text
}

fn emit_reset_assignments(params: &Vec<ResetParam>) -> (text: String)
    ensures
        text@ == concat(Seq::new(params.len() as nat, |i: int| reset_assignment_text(params[i]@))),
{
    let mut text = String::new();
    let mut i: usize = 0;
    while i < params.len()
        invariant
            i <= params.len(),
            text@ == concat(Seq::new(i as nat, |k: int| reset_assignment_text(params[k]@))),
        decreases params.len() - i,
    {
        let param = &params[i];
        text.append("        lock.");
        text.append(param.name.as_str());
        text.append(" = ");
        text.append(param.name.as_str());
        text.append(";\n");
        proof {
            let done = Seq::new(i as nat, |k: int| reset_assignment_text(params[k]@));
            let next = Seq::new((i + 1) as nat, |k: int| reset_assignment_text(params[k]@));
            assert(next.drop_last() =~= done);
            assert(text@ =~= concat(done) + reset_assignment_text(param@));
        }
        i += 1;
    }
    text
}

fn emit_reset(params: &Vec<ResetParam>) -> (text: String)
    ensures
        text@ == reset_text(params.deep_view()),
{
    let mut text = String::new();
    if params.len() > 0 {
        text.append("    #[cfg(test)]\n    pub fn _reset(&self, ");
        text.append(emit_reset_params(params).as_str());
        text.append(") {\n");
        text.append("        let mut lock = self.p_fields.lock().unwrap();\n");
        text.append(emit_reset_assignments(params).as_str());
        text.append("    }\n");
        proof {
            let all = params.deep_view();
            assert(Seq::new(params.len() as nat, |i: int| reset_param_text(params[i]@))
                =~= Seq::new(all.len(), |i: int| reset_param_text(all[i])));
            assert(Seq::new(params.len() as nat, |i: int| reset_assignment_text(params[i]@))
                =~= Seq::new(all.len(), |i: int| reset_assignment_text(all[i])));
            assert(text@ =~= reset_text(all));
        }
    }
    text
}

fn append_default_impl(text: &mut String, generated: &GeneratedType)
    ensures
        final(text)@ == old(text)@ + default_impl_text(generated@),
{
    text.append("impl Default for ");
    text.append(generated.owner.as_str());
    text.append(" {\n    fn default() -> Self {\n        Self {\n");
    text.append(emit_default_fields(&generated.default_fields).as_str());
    text.append("        }\n    }\n}\n");
    proof {
        let fields = generated@.default_fields;
        assert(Seq::new(
            generated.default_fields.len() as nat,
            |i: int| default_field_text(generated.default_fields[i]@),
        ) =~= Seq::new(fields.len(), |i: int| default_field_text(fields[i])));
        assert(text@ =~= old(text)@ + default_impl_text(generated@));
    }
}

fn append_companion(text: &mut String, generated: &GeneratedType)
    ensures
        final(text)@ == old(text)@ + companion_text(generated@),
{
    text.append("#[derive(Default)]\npub struct ");
    text.append(generated.companion.as_str());
    text.append(" {\n");
    if generated.reset.len() > 0 {
        text.append("    #[cfg(test)]\n    p_fields: std::sync::Mutex<");
        text.append(generated.owner.as_str());
        text.append(">,\n");
    }
    text.append("}\n");
    proof {
        assert(text@ =~= old(text)@ + companion_text(generated@));
    }
}

fn append_procedures(text: &mut String, generated: &GeneratedType)
    ensures
        final(text)@ == old(text)@ + procedures_text(generated@),
{
    text.append("impl ");
    text.append(generated.companion.as_str());
    text.append(" {\n");
    text.append(emit_accessors(&generated.accessors).as_str());
    text.append(emit_reset(&generated.reset).as_str());
    text.append("}\n");
    proof {
        let accessors = generated@.accessors;
        assert(Seq::new(
            generated.accessors.len() as nat,
            |i: int| accessor_text(generated.accessors[i]@),
        ) =~= Seq::new(accessors.len(), |i: int| accessor_text(accessors[i])));
        assert(text@ =~= old(text)@ + procedures_text(generated@));
    }
}

fn append_singleton(text: &mut String, generated: &GeneratedType)
    ensures
        final(text)@ == old(text)@ + singleton_text(generated@),
{
    text.append("lazy_static::lazy_static! {\n    pub static ref ");
    text.append(generated.singleton.as_str());
    text.append(": ");
    text.append(generated.companion.as_str());
    text.append(" = ");
    text.append(generated.companion.as_str());
    text.append("::default();\n}\n");
    proof {
        assert(text@ =~= old(text)@ + singleton_text(generated@));
    }
}

impl GeneratedType {
    /// The source text of the companion.
    pub fn source(&self) -> (text: String)
        ensures
            text@ == source_text(self@),
    {
        let mut text = emit_constants(&self.constants);
        proof {
            let constants = self@.constants;
            assert(Seq::new(self.constants.len() as nat, |i: int| constant_text(self.constants[i]@))
                =~= Seq::new(constants.len(), |i: int| constant_text(constants[i])));
        }
        append_default_impl(&mut text, self);
        append_companion(&mut text, self);
        append_procedures(&mut text, self);
        append_singleton(&mut text, self);
        text
    }
}

} // verus!
