//! The reference finalize pass: after the whole tree is materialized, each
//! pending reference is looked up in the synthetic-id registry and patched
//! into its owning instance, or reported unresolved. The pass never aborts
//! the build; it only annotates outcomes.

use vstd::prelude::*;

use crate::resolve::pending_view;
use crate::resolve::PendingReference;
use crate::resolve::PendingReferenceS;
use crate::tree::built_node_ok;
use crate::tree::pending_valid;
use crate::tree::props_match;
use crate::tree::props_view;
use crate::tree::reg_valid;
use crate::tree::reg_view;
use crate::tree::value_matches;
use crate::tree::warn_view;
use crate::tree::Instance;
use crate::tree::ProjectNode;
use crate::tree::Warning;
use crate::tree::WarningS;
use crate::value::ResolvedValue;
use crate::value::ResolvedValueS;

verus! {

/// What the registry maps a synthetic id to: the index of the first
/// instance registered under it.
pub open spec fn registry_lookup(reg: Seq<(Seq<char>, int)>, id: Seq<char>) -> Option<int>
    decreases reg.len(),
{
    if reg.len() == 0 {
        None
    } else if reg[0].0 == id {
        Some(reg[0].1)
    } else {
        registry_lookup(reg.skip(1), id)
    }
}

/// Computes `registry_lookup`: first match wins.
pub fn registry_find(registry: &Vec<(String, usize)>, id: &str) -> (r: Option<usize>)
    ensures
        match r {
            Some(t) => registry_lookup(reg_view(registry@), id@) == Some(t as int),
            None => registry_lookup(reg_view(registry@), id@) is None,
        },
{
    let mut i: usize = 0;
    proof {
        assert(reg_view(registry@).skip(0) =~= reg_view(registry@));
    }
    while i < registry.len()
        invariant
            i <= registry@.len(),
            registry_lookup(reg_view(registry@), id@) == registry_lookup(
                reg_view(registry@).skip(i as int),
                id@,
            ),
        decreases registry@.len() - i,
    {
        proof {
            assert(reg_view(registry@).skip(i as int)[0] == reg_view(registry@)[i as int]);
            assert(reg_view(registry@).skip(i as int).skip(1) =~= reg_view(registry@).skip(
                i as int + 1,
            ));
        }
        if crate::strutil::str_eq(registry[i].0.as_str(), id) {
            return Some(registry[i].1);
        }
        i = i + 1;
    }
    None
}

/// The warnings the finalize pass emits: one per pending reference whose
/// target id no instance carries, in order.
pub open spec fn unresolved_warnings(
    pend: Seq<PendingReferenceS>,
    reg: Seq<(Seq<char>, int)>,
) -> Seq<WarningS>
    decreases pend.len(),
{
    if pend.len() == 0 {
        Seq::empty()
    } else {
        let front = unresolved_warnings(pend.drop_last(), reg);
        let last = pend.last();
        match registry_lookup(reg, last.target) {
            Some(_) => front,
            None => front.push(
                WarningS::UnresolvedReference {
                    source: last.source,
                    prop: last.prop,
                    target: last.target,
                },
            ),
        }
    }
}

/// Is this property entry a reference slot named `prop`?
pub open spec fn is_ref_entry(entry: (Seq<char>, ResolvedValueS), prop: Seq<char>) -> bool {
    entry.0 == prop && entry.1 is Referent
}

/// The position of the first reference slot named `prop` in a property
/// list, if any: the entry the finalize pass patches.
pub open spec fn first_ref_index(
    props: Seq<(Seq<char>, ResolvedValueS)>,
    prop: Seq<char>,
) -> Option<int>
    decreases props.len(),
{
    if props.len() == 0 {
        None
    } else if is_ref_entry(props[0], prop) {
        Some(0int)
    } else {
        match first_ref_index(props.skip(1), prop) {
            Some(i) => Some(i + 1),
            None => None,
        }
    }
}

/// Scanning past a prefix without a matching slot shifts the first match.
proof fn lemma_first_ref_skip(props: Seq<(Seq<char>, ResolvedValueS)>, prop: Seq<char>, j: int)
    requires
        0 <= j <= props.len(),
        forall|q: int| 0 <= q < j ==> !is_ref_entry(#[trigger] props[q], prop),
    ensures
        first_ref_index(props, prop) == match first_ref_index(props.skip(j), prop) {
            Some(i) => Some(i + j),
            None => None::<int>,
        },
    decreases j,
{
    if j == 0 {
        assert(props.skip(0) =~= props);
    } else {
        assert(!is_ref_entry(props[0], prop));
        let tail = props.skip(1);
        assert forall|q: int| 0 <= q < j - 1 implies !is_ref_entry(
            #[trigger] tail[q],
            prop,
        ) by {
            assert(tail[q] == props[q + 1]);
        }
        lemma_first_ref_skip(tail, prop, j - 1);
        assert(tail.skip(j - 1) =~= props.skip(j));
    }
}

/// A property list after one patch: the first reference slot named `prop`
/// now points at `t`; without such a slot the list is untouched.
pub open spec fn patch_props(
    props: Seq<(Seq<char>, ResolvedValueS)>,
    prop: Seq<char>,
    t: int,
) -> Seq<(Seq<char>, ResolvedValueS)> {
    match first_ref_index(props, prop) {
        Some(j) => props.update(j, (prop, ResolvedValueS::Referent(Some(t)))),
        None => props,
    }
}

/// The property views of every instance of the arena, in order.
pub open spec fn props_views(instances: Seq<Instance>) -> Seq<Seq<(Seq<char>, ResolvedValueS)>> {
    instances.map_values(|inst: Instance| props_view(inst.properties@))
}

/// What the finalize pass leaves of the arena's property lists: each pending
/// reference in order, where its target id is registered, patches the first
/// matching reference slot of its source instance; misses change nothing.
pub open spec fn apply_pending(
    views: Seq<Seq<(Seq<char>, ResolvedValueS)>>,
    reg: Seq<(Seq<char>, int)>,
    pend: Seq<PendingReferenceS>,
) -> Seq<Seq<(Seq<char>, ResolvedValueS)>>
    decreases pend.len(),
{
    if pend.len() == 0 {
        views
    } else {
        let front = apply_pending(views, reg, pend.drop_last());
        let p = pend.last();
        match registry_lookup(reg, p.target) {
            Some(t) => if 0 <= p.source < front.len() {
                front.update(p.source, patch_props(front[p.source], p.prop, t))
            } else {
                front
            },
            None => front,
        }
    }
}

/// One value after the finalize pass, against its value before: reference
/// slots may gain a target inside the arena; everything else is untouched.
pub open spec fn value_patched(oldv: ResolvedValueS, newv: ResolvedValueS, arena_len: int) -> bool {
    match oldv {
        ResolvedValueS::Referent(_) => match newv {
            ResolvedValueS::Referent(t) => newv == oldv || match t {
                Some(x) => 0 <= x < arena_len,
                None => true,
            },
            _ => false,
        },
        _ => newv == oldv,
    }
}

/// A hit of the registry lookup lies inside the arena whenever every entry
/// does.
pub proof fn lemma_registry_lookup_valid(reg: Seq<(Seq<char>, int)>, id: Seq<char>, arena_len: int)
    requires
        reg_valid(reg, arena_len),
        registry_lookup(reg, id) is Some,
    ensures
        0 <= registry_lookup(reg, id)->0 < arena_len,
    decreases reg.len(),
{
    if reg.len() > 0 && reg[0].0 != id {
        assert forall|j: int| 0 <= j < reg.skip(1).len() implies 0 <= (#[trigger] reg.skip(1)[j]).1
            < arena_len by {
            assert(reg.skip(1)[j] == reg[j + 1]);
        }
        lemma_registry_lookup_valid(reg.skip(1), id, arena_len);
    }
}

/// One instance after the finalize pass, against itself before: class, name,
/// children and property keys untouched; property values patched at most in
/// their reference targets.
pub open spec fn instance_patched(oldi: Instance, newi: Instance, arena_len: int) -> bool {
    &&& newi.class == oldi.class
    &&& newi.name == oldi.name
    &&& newi.children == oldi.children
    &&& newi.properties@.len() == oldi.properties@.len()
    &&& forall|p: int|
        0 <= p < oldi.properties@.len() ==> (#[trigger] newi.properties@[p]).0@
            == oldi.properties@[p].0@ && value_patched(
            oldi.properties@[p].1@,
            newi.properties@[p].1@,
            arena_len,
        )
}

/// Patches the first reference-valued property named `prop` of the instance
/// at `src` to point at `target`; a no-op when the instance holds no such
/// property. The result is exactly `patch_props` of the old property list;
/// class, name and children are untouched.
fn patch_property(instances: &mut Vec<Instance>, src: usize, prop: &str, target: usize)
    requires
        src < old(instances)@.len(),
        target < old(instances)@.len(),
    ensures
        final(instances)@.len() == old(instances)@.len(),
        forall|j: int|
            0 <= j < old(instances)@.len() && j != src ==> final(instances)@[j] == old(
                instances,
            )@[j],
        final(instances)@[src as int].class == old(instances)@[src as int].class,
        final(instances)@[src as int].name == old(instances)@[src as int].name,
        final(instances)@[src as int].children == old(instances)@[src as int].children,
        props_view(final(instances)@[src as int].properties@) == patch_props(
            props_view(old(instances)@[src as int].properties@),
            prop@,
            target as int,
        ),
        instance_patched(
            old(instances)@[src as int],
            final(instances)@[src as int],
            old(instances)@.len() as int,
        ),
{
    let ghost pv = props_view(old(instances)@[src as int].properties@);
    let n: usize = instances[src].properties.len();
    let mut j: usize = 0;
    while j < n
        invariant
            src < instances@.len(),
            target < instances@.len(),
            instances@ == old(instances)@,
            n == instances@[src as int].properties@.len(),
            pv == props_view(instances@[src as int].properties@),
            j <= n,
            forall|q: int| 0 <= q < j ==> !is_ref_entry(#[trigger] pv[q], prop@),
        decreases n - j,
    {
        proof {
            assert(pv[j as int] == (
                instances@[src as int].properties@[j as int].0@,
                instances@[src as int].properties@[j as int].1@,
            ));
        }
        let is_ref: bool = match &instances[src].properties[j].1 {
            ResolvedValue::Referent(_) => true,
            _ => false,
        };
        if is_ref && crate::strutil::str_eq(instances[src].properties[j].0.as_str(), prop) {
            proof {
                lemma_first_ref_skip(pv, prop@, j as int);
                assert(pv.skip(j as int)[0] == pv[j as int]);
                assert(is_ref_entry(pv[j as int], prop@));
                assert(first_ref_index(pv, prop@) == Some(j as int));
            }
            let key: String = instances[src].properties[j].0.clone();
            let ghost before = instances@;
            instances[src].properties[j] = (key, ResolvedValue::Referent(Some(target)));
            proof {
                assert(props_view(instances@[src as int].properties@) =~= pv.update(
                    j as int,
                    (prop@, ResolvedValueS::Referent(Some(target as int))),
                ));
                assert(instance_patched(
                    old(instances)@[src as int],
                    instances@[src as int],
                    old(instances)@.len() as int,
                )) by {
                    assert forall|p: int|
                        0 <= p < old(instances)@[src as int].properties@.len() implies (
                    #[trigger] instances@[src as int].properties@[p]).0@ == old(
                        instances,
                    )@[src as int].properties@[p].0@ && value_patched(
                        old(instances)@[src as int].properties@[p].1@,
                        instances@[src as int].properties@[p].1@,
                        old(instances)@.len() as int,
                    ) by {
                        assert(pv[p] == (
                            old(instances)@[src as int].properties@[p].0@,
                            old(instances)@[src as int].properties@[p].1@,
                        ));
                        if p != j as int {
                            assert(instances@[src as int].properties@[p] == old(
                                instances,
                            )@[src as int].properties@[p]);
                        }
                    }
                }
            }
            return;
        }
        j = j + 1;
    }
    proof {
        lemma_first_ref_skip(pv, prop@, n as int);
        assert(pv.skip(n as int).len() == 0);
        assert(first_ref_index(pv, prop@) is None);
        assert forall|p: int|
            0 <= p < old(instances)@[src as int].properties@.len() implies (
        #[trigger] instances@[src as int].properties@[p]).0@ == old(
            instances,
        )@[src as int].properties@[p].0@ && value_patched(
            old(instances)@[src as int].properties@[p].1@,
            instances@[src as int].properties@[p].1@,
            old(instances)@.len() as int,
        ) by {
            assert(instances@[src as int].properties@[p] == old(
                instances,
            )@[src as int].properties@[p]);
        }
    }
}

/// Runs once after the walk: looks every pending reference up in the
/// registry, patches the hits into their owning instances, and reports each
/// miss as an `UnresolvedReference` warning. Class, name, children and
/// property keys of every instance are untouched.
pub fn finalize_references(
    instances: &mut Vec<Instance>,
    registry: &Vec<(String, usize)>,
    pending: &Vec<PendingReference>,
    warnings: &mut Vec<Warning>,
)
    requires
        pending_valid(pending_view(pending@), old(instances)@.len() as int),
        reg_valid(reg_view(registry@), old(instances)@.len() as int),
    ensures
        final(instances)@.len() == old(instances)@.len(),
        forall|j: int|
            0 <= j < old(instances)@.len() ==> instance_patched(
                old(instances)@[j],
                final(instances)@[j],
                old(instances)@.len() as int,
            ),
        warn_view(final(warnings)@) == warn_view(old(warnings)@) + unresolved_warnings(
            pending_view(pending@),
            reg_view(registry@),
        ),
        props_views(final(instances)@) == apply_pending(
            props_views(old(instances)@),
            reg_view(registry@),
            pending_view(pending@),
        ),
        forall|j: int|
            0 <= j < old(instances)@.len() ==> {
                &&& (#[trigger] final(instances)@[j]).class == old(instances)@[j].class
                &&& final(instances)@[j].name == old(instances)@[j].name
                &&& final(instances)@[j].children == old(instances)@[j].children
            },
{
    let mut k: usize = 0;
    proof {
        assert(pending_view(pending@).take(0) =~= Seq::<PendingReferenceS>::empty());
        assert(props_views(instances@) =~= apply_pending(
            props_views(old(instances)@),
            reg_view(registry@),
            pending_view(pending@).take(0),
        ));
        assert(warn_view(warnings@) =~= warn_view(warnings@) + unresolved_warnings(
            pending_view(pending@).take(0),
            reg_view(registry@),
        ));
        assert forall|j: int| 0 <= j < old(instances)@.len() implies instance_patched(
            old(instances)@[j],
            instances@[j],
            old(instances)@.len() as int,
        ) by {
            assert(instances@[j] == old(instances)@[j]);
        }
    }
    while k < pending.len()
        invariant
            k <= pending@.len(),
            pending_valid(pending_view(pending@), old(instances)@.len() as int),
            reg_valid(reg_view(registry@), old(instances)@.len() as int),
            instances@.len() == old(instances)@.len(),
            forall|j: int|
                0 <= j < old(instances)@.len() ==> instance_patched(
                    old(instances)@[j],
                    instances@[j],
                    old(instances)@.len() as int,
                ),
            warn_view(warnings@) == warn_view(old(warnings)@) + unresolved_warnings(
                pending_view(pending@).take(k as int),
                reg_view(registry@),
            ),
            props_views(instances@) == apply_pending(
                props_views(old(instances)@),
                reg_view(registry@),
                pending_view(pending@).take(k as int),
            ),
            forall|j: int|
                0 <= j < old(instances)@.len() ==> {
                    &&& (#[trigger] instances@[j]).class == old(instances)@[j].class
                    &&& instances@[j].name == old(instances)@[j].name
                    &&& instances@[j].children == old(instances)@[j].children
                },
        decreases pending@.len() - k,
    {
        proof {
            assert(pending_view(pending@).take(k as int + 1).drop_last() =~= pending_view(
                pending@,
            ).take(k as int));
            assert(pending_view(pending@).take(k as int + 1).last() == pending_view(
                pending@,
            )[k as int]);
        }
        let entry: &PendingReference = &pending[k];
        proof {
            assert(pending_view(pending@)[k as int] == pending@[k as int]@);
        }
        match registry_find(registry, entry.target.as_str()) {
            Some(target) => {
                let ghost mid = instances@;
                proof {
                    lemma_registry_lookup_valid(
                        reg_view(registry@),
                        entry.target@,
                        old(instances)@.len() as int,
                    );
                }
                patch_property(instances, entry.source, entry.prop.as_str(), target);
                proof {
                    let reg = reg_view(registry@);
                    let pv_all = pending_view(pending@);
                    let front = apply_pending(
                        props_views(old(instances)@),
                        reg,
                        pv_all.take(k as int),
                    );
                    assert(props_views(mid) == front);
                    assert(props_views(mid).len() == mid.len());
                    assert(props_views(mid)[entry.source as int] == props_view(
                        mid[entry.source as int].properties@,
                    ));
                    assert(props_views(instances@) =~= props_views(mid).update(
                        entry.source as int,
                        patch_props(
                            props_view(mid[entry.source as int].properties@),
                            entry.prop@,
                            target as int,
                        ),
                    )) by {
                        assert forall|j: int| 0 <= j < instances@.len() implies props_views(
                            instances@,
                        )[j] == props_views(mid).update(
                            entry.source as int,
                            patch_props(
                                props_view(mid[entry.source as int].properties@),
                                entry.prop@,
                                target as int,
                            ),
                        )[j] by {
                            assert(props_views(instances@)[j] == props_view(
                                instances@[j].properties@,
                            ));
                            if j != entry.source as int {
                                assert(instances@[j] == mid[j]);
                            }
                        }
                    }
                    assert(props_views(instances@) =~= apply_pending(
                        props_views(old(instances)@),
                        reg,
                        pv_all.take(k as int + 1),
                    ));
                    assert forall|j: int|
                        0 <= j < old(instances)@.len() implies instance_patched(
                        old(instances)@[j],
                        instances@[j],
                        old(instances)@.len() as int,
                    ) by {
                        if j == entry.source as int {
                            lemma_instance_patched_trans(
                                old(instances)@[j],
                                mid[j],
                                instances@[j],
                                old(instances)@.len() as int,
                            );
                        } else {
                            assert(instances@[j] == mid[j]);
                        }
                    }
                }
            },
            None => {
                let ghost warn_before = warnings@;
                let w = Warning::UnresolvedReference {
                    source: entry.source,
                    prop: entry.prop.clone(),
                    target: entry.target.clone(),
                };
                let ghost wv = w@;
                warnings.push(w);
                proof {
                    assert(warn_view(warnings@) =~= warn_view(warn_before).push(wv));
                    assert(warn_view(warnings@) =~= warn_view(old(warnings)@)
                        + unresolved_warnings(
                        pending_view(pending@).take(k as int + 1),
                        reg_view(registry@),
                    ));
                }
            },
        }
        k = k + 1;
    }
    proof {
        assert(pending_view(pending@).take(pending@.len() as int) =~= pending_view(pending@));
    }
}

/// `instance_patched` composes: two finalize steps in sequence stand in the
/// relation again.
proof fn lemma_instance_patched_trans(a: Instance, b: Instance, c: Instance, arena_len: int)
    requires
        instance_patched(a, b, arena_len),
        instance_patched(b, c, arena_len),
    ensures
        instance_patched(a, c, arena_len),
{
    assert forall|p: int|
        0 <= p < a.properties@.len() implies (#[trigger] c.properties@[p]).0@ == a.properties@[p].0@
        && value_patched(a.properties@[p].1@, c.properties@[p].1@, arena_len) by {
        assert(value_patched(a.properties@[p].1@, b.properties@[p].1@, arena_len));
        assert(value_patched(b.properties@[p].1@, c.properties@[p].1@, arena_len));
    }
}

/// Patching reference targets preserves the tree correspondence: the
/// correspondence pins every non-reference value and only the presence of
/// reference slots.
pub proof fn lemma_built_node_ok_after_patch(
    a: Seq<Instance>,
    b: Seq<Instance>,
    idx: int,
    node: ProjectNode,
    key: Seq<char>,
)
    requires
        built_node_ok(a, idx, node, key),
        b.len() == a.len(),
        forall|j: int| 0 <= j < a.len() ==> instance_patched(a[j], #[trigger] b[j], a.len() as int),
    ensures
        built_node_ok(b, idx, node, key),
    decreases node,
{
    assert(instance_patched(a[idx], b[idx], a.len() as int));
    assert(b[idx].class@ == a[idx].class@);
    assert(b[idx].name@ == a[idx].name@);
    assert(b[idx].children@ == a[idx].children@);
    assert(props_match(
        props_view(b[idx].properties@),
        crate::tree::resolved_props(b[idx].class@, node.properties@),
    )) by {
        let expected = crate::tree::resolved_props(a[idx].class@, node.properties@);
        assert forall|p: int|
            0 <= p < props_view(b[idx].properties@).len() implies (#[trigger] props_view(
            b[idx].properties@,
        )[p]).0 == expected[p].0 && value_matches(props_view(b[idx].properties@)[p].1, expected[p].1)
            by {
            assert(props_view(a[idx].properties@)[p].0 == expected[p].0);
            assert(value_matches(props_view(a[idx].properties@)[p].1, expected[p].1));
            assert(value_patched(a[idx].properties@[p].1@, b[idx].properties@[p].1@, a.len() as int));
        }
    }
    assert forall|i: int| 0 <= i < node.children@.len() implies built_node_ok(
        b,
        #[trigger] b[idx].children@[i] as int,
        node.children@[i].1,
        node.children@[i].0@,
    ) by {
        lemma_built_node_ok_after_patch(
            a,
            b,
            a[idx].children@[i] as int,
            node.children@[i].1,
            node.children@[i].0@,
        );
    }
}

} // verus!
