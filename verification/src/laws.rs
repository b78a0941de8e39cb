//! The laws of the resolution engine, stated and proved once over the spec
//! functions that the executable contracts use.

use vstd::prelude::*;

use crate::refs::instance_patched;
use crate::resolve::channel_of;
use crate::resolve::clamp_unit;
use crate::resolve::resolve_spec;
use crate::resolve::resolve_typed;
use crate::tree::built_node_ok;
use crate::tree::effective_class_spec;
use crate::tree::effective_name_spec;
use crate::tree::is_known_service;
use crate::tree::name_override;
use crate::tree::property_warnings;
use crate::tree::props_view;
use crate::tree::resolved_props;
use crate::tree::Instance;
use crate::tree::ProjectNode;
use crate::tree::WarningS;
use crate::value::PropertyTypeS;
use crate::value::RawValue;
use crate::value::RawValueS;
use crate::value::ResolutionError;
use crate::value::ResolvedValueS;

verus! {

/// A raw boolean resolved against a boolean-typed property is returned
/// exactly as it came in.
pub proof fn lemma_bool_passthrough(b: bool)
    ensures
        resolve_typed(PropertyTypeS::Bool, RawValueS::Bool(b)) == Ok::<
            ResolvedValueS,
            ResolutionError,
        >(ResolvedValueS::Bool(b)),
{
}

/// A three-element numeric sequence resolved against a vector-typed
/// property maps its elements positionally to x, y and z, unscaled.
pub proof fn lemma_vector3_components(v: Seq<int>)
    requires
        v.len() == 3,
    ensures
        resolve_typed(PropertyTypeS::Vector3, RawValueS::NumberSeq(v)) == Ok::<
            ResolvedValueS,
            ResolutionError,
        >(ResolvedValueS::Vector3 { x: v[0], y: v[1], z: v[2] }),
{
}

/// A three-element numeric sequence resolved against a color-typed property
/// quantizes each element: clamped to the unit interval, scaled to 255, and
/// rounded to the nearest integer with halves away from zero; every channel
/// lands in 0..=255.
pub proof fn lemma_color3_quantization(v: Seq<int>)
    requires
        v.len() == 3,
    ensures
        resolve_typed(PropertyTypeS::Color3, RawValueS::NumberSeq(v)) == Ok::<
            ResolvedValueS,
            ResolutionError,
        >(
            ResolvedValueS::Color3 {
                r: (clamp_unit(v[0]) * 255 + 500_000) / 1_000_000,
                g: (clamp_unit(v[1]) * 255 + 500_000) / 1_000_000,
                b: (clamp_unit(v[2]) * 255 + 500_000) / 1_000_000,
            },
        ),
        forall|i: int| 0 <= i < 3 ==> 0 <= #[trigger] channel_of(v[i]) <= 255,
{
    assert forall|i: int| 0 <= i < 3 implies 0 <= #[trigger] channel_of(v[i]) <= 255 by {
        assert(0 <= clamp_unit(v[i]) <= 1_000_000);
        assert(clamp_unit(v[i]) * 255 <= 255_000_000) by (nonlinear_arith)
            requires
                0 <= clamp_unit(v[i]) <= 1_000_000,
        ;
    }
}

/// A twelve-element numeric sequence resolved against a rotation-typed
/// property takes its first three elements as the position and the
/// remaining nine, unmodified and in row-major order, as the basis.
pub proof fn lemma_rotation_layout(v: Seq<int>)
    requires
        v.len() == 12,
    ensures
        resolve_typed(PropertyTypeS::Rotation, RawValueS::NumberSeq(v)) == Ok::<
            ResolvedValueS,
            ResolutionError,
        >(ResolvedValueS::Rotation { position: (v[0], v[1], v[2]), basis: v.subrange(3, 12) }),
        forall|j: int| 0 <= j < 9 ==> v.subrange(3, 12)[j] == v[3 + j],
{
}

/// An explicit string name inside a node's property map always overrides
/// the node's structural key as the instance's effective name.
pub proof fn lemma_name_override_wins(props: Seq<(String, RawValue)>, key: Seq<char>, s: Seq<char>)
    requires
        name_override(props) == Some(s),
    ensures
        effective_name_spec(props, key) == s,
{
}

/// The property list of a built instance never carries a name entry: the
/// name lives only in the instance's own name field.
pub proof fn lemma_no_name_property(class: Seq<char>, props: Seq<(String, RawValue)>)
    ensures
        forall|j: int|
            0 <= j < resolved_props(class, props).len() ==> (#[trigger] resolved_props(
                class,
                props,
            )[j]).0 != "Name"@,
    decreases props.len(),
{
    if props.len() > 0 {
        lemma_no_name_property(class, props.drop_last());
        let front = resolved_props(class, props.drop_last());
        let all = resolved_props(class, props);
        assert forall|j: int| 0 <= j < all.len() implies (#[trigger] all[j]).0 != "Name"@ by {
            if j < front.len() {
                assert(all[j] == front[j]);
            }
        }
    }
}

/// In a materialized tree no instance holds a name entry among its
/// properties, whatever its node held.
pub proof fn lemma_instance_has_no_name_entry(
    instances: Seq<Instance>,
    idx: int,
    node: ProjectNode,
    key: Seq<char>,
)
    requires
        built_node_ok(instances, idx, node, key),
    ensures
        forall|j: int|
            0 <= j < instances[idx].properties@.len() ==> (#[trigger] props_view(
                instances[idx].properties@,
            )[j]).0 != "Name"@,
{
    lemma_no_name_property(instances[idx].class@, node.properties@);
}

/// A keyless node under a well-known service key takes the key as its
/// class; under any other key it becomes the generic container class.
pub proof fn lemma_service_class_inference(key: Seq<char>)
    ensures
        is_known_service(key) ==> effective_class_spec(None, key) == key,
        !is_known_service(key) ==> effective_class_spec(None, key) == "Folder"@,
{
}

/// A property whose raw shape cannot be coerced to its declared type is
/// omitted from the built property list — the remaining properties resolve
/// exactly as if it had never been written — and yields a warning naming
/// the class, the property, and the reason.
pub proof fn lemma_bad_property_omitted(
    class: Seq<char>,
    props: Seq<(String, RawValue)>,
    j: int,
    e: ResolutionError,
)
    requires
        0 <= j < props.len(),
        props[j].0@ != "Name"@,
        resolve_spec(class, props[j].0@, props[j].1@) == Err::<ResolvedValueS, ResolutionError>(e),
    ensures
        resolved_props(class, props) == resolved_props(class, props.remove(j)),
        property_warnings(class, props).contains(
            WarningS::Property { class, prop: props[j].0@, reason: e },
        ),
    decreases props.len(),
{
    let w = WarningS::Property { class, prop: props[j].0@, reason: e };
    if j == props.len() - 1 {
        assert(props.remove(j) =~= props.drop_last());
        assert(property_warnings(class, props) == property_warnings(class, props.drop_last()).push(
            w,
        ));
        assert(property_warnings(class, props).last() == w);
    } else {
        let shorter = props.drop_last();
        assert(props.remove(j).drop_last() =~= shorter.remove(j));
        assert(props.remove(j).last() == props.last());
        lemma_bad_property_omitted(class, shorter, j, e);
        assert(resolved_props(class, props) == resolved_props(class, props.remove(j)));
        let front = property_warnings(class, shorter);
        assert(front.contains(w));
        let k = choose|k: int| 0 <= k < front.len() && front[k] == w;
        assert(property_warnings(class, props)[k] == w);
    }
}

/// In a materialized tree every instance's children precede it in the
/// arena, so the root can never appear among its own children: under the
/// place-file rule, where the top-level entries are exactly the root's
/// children, no top-level entry is the root itself.
pub proof fn lemma_root_never_emitted(
    instances: Seq<Instance>,
    root: int,
    node: ProjectNode,
    key: Seq<char>,
)
    requires
        built_node_ok(instances, root, node, key),
    ensures
        forall|i: int|
            0 <= i < instances[root].children@.len() ==> #[trigger] instances[root].children@[i]
                != root,
{
}

/// The finalize pass never disturbs a non-reference value: whatever it does
/// to reference targets, every other property value is bit-for-bit what the
/// walk produced.
pub proof fn lemma_finalize_preserves_values(a: Instance, b: Instance, arena_len: int, p: int)
    requires
        instance_patched(a, b, arena_len),
        0 <= p < a.properties@.len(),
        !(a.properties@[p].1@ is Referent),
    ensures
        b.properties@[p].1@ == a.properties@[p].1@,
{
}

} // verus!
