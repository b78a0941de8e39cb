//! The tree builder: walks the input node tree, determines each node's
//! effective class and name, resolves every declared property, records
//! pending references, and materializes the typed instance tree as an
//! index-based arena.

use vstd::prelude::*;

use crate::resolve::pending_view;
use crate::resolve::registers_pending;
use crate::resolve::resolve;
use crate::resolve::resolve_spec;
use crate::resolve::PendingReference;
use crate::resolve::PendingReferenceS;
use crate::value::RawValue;
use crate::value::RawValueS;
use crate::value::ResolutionError;
use crate::value::ResolvedValue;
use crate::value::ResolvedValueS;

verus! {

/// One node of the input document: an optional explicit class, a property
/// map, and named children. Children keep their textual order.
#[derive(Debug)]
pub struct ProjectNode {
    pub class_name: Option<String>,
    pub properties: Vec<(String, RawValue)>,
    pub children: Vec<(String, ProjectNode)>,
}

/// A whole input document: an optional name for the root instance, and the
/// root node.
#[derive(Debug)]
pub struct Project {
    pub name: Option<String>,
    pub tree: ProjectNode,
}

/// One materialized typed instance. Children are indices into the arena that
/// holds the whole tree.
#[derive(Debug, Clone)]
pub struct Instance {
    pub class: String,
    pub name: String,
    pub properties: Vec<(String, ResolvedValue)>,
    pub children: Vec<usize>,
}

/// The materialized tree: an arena of instances and the index of its root.
#[derive(Debug, Clone)]
pub struct Dom {
    pub instances: Vec<Instance>,
    pub root: usize,
}

/// A recoverable failure, reported beside the built tree, never aborting it.
#[derive(Debug, Clone, PartialEq, Eq)]
pub enum Warning {
    /// One property failed to resolve and was omitted.
    Property { class: String, prop: String, reason: ResolutionError },
    /// A pending reference named a synthetic id that no instance carries.
    UnresolvedReference { source: usize, prop: String, target: String },
}

/// Specification-level mirror of `Warning`.
pub enum WarningS {
    Property { class: Seq<char>, prop: Seq<char>, reason: ResolutionError },
    UnresolvedReference { source: int, prop: Seq<char>, target: Seq<char> },
}

impl View for Warning {
    type V = WarningS;

    open spec fn view(&self) -> WarningS {
        match self {
            Warning::Property { class, prop, reason } => WarningS::Property {
                class: class@,
                prop: prop@,
                reason: *reason,
            },
            Warning::UnresolvedReference { source, prop, target } => {
                WarningS::UnresolvedReference {
                    source: *source as int,
                    prop: prop@,
                    target: target@,
                }
            },
        }
    }
}

/// The views of a list of warnings.
pub open spec fn warn_view(s: Seq<Warning>) -> Seq<WarningS> {
    s.map_values(|w: Warning| w@)
}

/// The views of a property list of an instance.
pub open spec fn props_view(s: Seq<(String, ResolvedValue)>) -> Seq<(Seq<char>, ResolvedValueS)> {
    s.map_values(|p: (String, ResolvedValue)| (p.0@, p.1@))
}

/// The structural keys that name well-known services; a keyless node under
/// such a key takes the key as its class.
pub open spec fn is_known_service(name: Seq<char>) -> bool {
    ||| name == "Workspace"@
    ||| name == "Players"@
    ||| name == "Lighting"@
    ||| name == "ReplicatedFirst"@
    ||| name == "ReplicatedStorage"@
    ||| name == "ServerScriptService"@
    ||| name == "ServerStorage"@
    ||| name == "StarterGui"@
    ||| name == "StarterPack"@
    ||| name == "StarterPlayer"@
    ||| name == "Teams"@
    ||| name == "SoundService"@
    ||| name == "Chat"@
    ||| name == "LocalizationService"@
    ||| name == "TestService"@
}

/// Infers a class from an instance name: each well-known service name maps
/// to the class of the same name; every other name is unknown.
pub fn infer_class_from_name(name: &str) -> (r: Option<&'static str>)
    ensures
        match r {
            Some(c) => is_known_service(name@) && c@ == name@,
            None => !is_known_service(name@),
        },
{
    let table: [&'static str; 15] = [
        "Workspace",
        "Players",
        "Lighting",
        "ReplicatedFirst",
        "ReplicatedStorage",
        "ServerScriptService",
        "ServerStorage",
        "StarterGui",
        "StarterPack",
        "StarterPlayer",
        "Teams",
        "SoundService",
        "Chat",
        "LocalizationService",
        "TestService",
    ];
    let mut i: usize = 0;
    while i < 15
        invariant
            i <= 15,
            table@.len() == 15,
            table@ =~= seq![
                "Workspace", "Players", "Lighting", "ReplicatedFirst", "ReplicatedStorage",
                "ServerScriptService", "ServerStorage", "StarterGui", "StarterPack",
                "StarterPlayer", "Teams", "SoundService", "Chat", "LocalizationService",
                "TestService",
            ],
            forall|j: int| 0 <= j < i ==> name@ != table@[j]@,
        decreases 15 - i,
    {
        if crate::strutil::str_eq(name, table[i]) {
            return Some(table[i]);
        }
        i = i + 1;
    }
    proof {
        assert(!is_known_service(name@)) by {
            assert(forall|j: int| 0 <= j < 15 ==> name@ != #[trigger] table@[j]@);
            assert(name@ != table@[0]@);
            assert(name@ != table@[1]@);
            assert(name@ != table@[2]@);
            assert(name@ != table@[3]@);
            assert(name@ != table@[4]@);
            assert(name@ != table@[5]@);
            assert(name@ != table@[6]@);
            assert(name@ != table@[7]@);
            assert(name@ != table@[8]@);
            assert(name@ != table@[9]@);
            assert(name@ != table@[10]@);
            assert(name@ != table@[11]@);
            assert(name@ != table@[12]@);
            assert(name@ != table@[13]@);
            assert(name@ != table@[14]@);
        }
    }
    None
}

/// The effective class of a node built under structural key `key`: its
/// explicit class if given, else the service class its key infers, else the
/// generic container class.
pub open spec fn effective_class_spec(class_name: Option<String>, key: Seq<char>) -> Seq<char> {
    match class_name {
        Some(c) => c@,
        None => if is_known_service(key) {
            key
        } else {
            "Folder"@
        },
    }
}

/// The name the property map forces on an instance, if any: the first
/// `Name` entry, provided its raw value is a plain string.
pub open spec fn name_override(props: Seq<(String, RawValue)>) -> Option<Seq<char>>
    decreases props.len(),
{
    if props.len() == 0 {
        None
    } else if props[0].0@ == "Name"@ {
        match props[0].1@ {
            RawValueS::Text(s) => Some(s),
            _ => None,
        }
    } else {
        name_override(props.skip(1))
    }
}

/// The effective name of a node built under structural key `key`: an
/// explicit string `Name` property wins over the key.
pub open spec fn effective_name_spec(props: Seq<(String, RawValue)>, key: Seq<char>) -> Seq<char> {
    match name_override(props) {
        Some(s) => s,
        None => key,
    }
}

/// The property list an instance of `class` gets from the raw property map:
/// `Name` entries are never re-emitted (the name is set on the instance
/// itself), failing entries are omitted, and the rest keep their order.
pub open spec fn resolved_props(class: Seq<char>, props: Seq<(String, RawValue)>) -> Seq<
    (Seq<char>, ResolvedValueS),
>
    decreases props.len(),
{
    if props.len() == 0 {
        Seq::empty()
    } else {
        let front = resolved_props(class, props.drop_last());
        let last = props.last();
        if last.0@ == "Name"@ {
            front
        } else {
            match resolve_spec(class, last.0@, last.1@) {
                Ok(v) => front.push((last.0@, v)),
                Err(_) => front,
            }
        }
    }
}

/// The warnings the raw property map produces: one per failing entry, in
/// order, each naming the class, the property and the reason.
pub open spec fn property_warnings(class: Seq<char>, props: Seq<(String, RawValue)>) -> Seq<
    WarningS,
>
    decreases props.len(),
{
    if props.len() == 0 {
        Seq::empty()
    } else {
        let front = property_warnings(class, props.drop_last());
        let last = props.last();
        if last.0@ == "Name"@ {
            front
        } else {
            match resolve_spec(class, last.0@, last.1@) {
                Ok(_) => front,
                Err(e) => front.push(
                    WarningS::Property { class, prop: last.0@, reason: e },
                ),
            }
        }
    }
}

/// The pending references the raw property map registers for the instance
/// at index `source`, in order.
pub open spec fn pending_additions(
    class: Seq<char>,
    props: Seq<(String, RawValue)>,
    source: int,
) -> Seq<PendingReferenceS>
    decreases props.len(),
{
    if props.len() == 0 {
        Seq::empty()
    } else {
        let front = pending_additions(class, props.drop_last(), source);
        let last = props.last();
        if last.0@ != "Name"@ && registers_pending(class, last.0@, last.1@) {
            front.push(crate::resolve::pending_record(source, last.0@, last.1@))
        } else {
            front
        }
    }
}

/// Resolves every property of the raw map for an instance of `class` at
/// index `source`: emits the resolvable entries in order (never a `Name`
/// entry), one warning per failing entry, and one pending reference per
/// reference-typed entry.
pub fn resolve_props(
    class: &str,
    props: &Vec<(String, RawValue)>,
    source: usize,
    pending: &mut Vec<PendingReference>,
    warnings: &mut Vec<Warning>,
) -> (out: Vec<(String, ResolvedValue)>)
    ensures
        props_view(out@) == resolved_props(class@, props@),
        warn_view(final(warnings)@) == warn_view(old(warnings)@) + property_warnings(
            class@,
            props@,
        ),
        pending_view(final(pending)@) == pending_view(old(pending)@) + pending_additions(
            class@,
            props@,
            source as int,
        ),
        old(pending)@.len() <= final(pending)@.len(),
        forall|j: int| 0 <= j < old(pending)@.len() ==> final(pending)@[j] == old(pending)@[j],
        old(warnings)@.len() <= final(warnings)@.len(),
        forall|j: int| 0 <= j < old(warnings)@.len() ==> final(warnings)@[j] == old(warnings)@[j],
{
    let mut out: Vec<(String, ResolvedValue)> = Vec::new();
    let mut i: usize = 0;
    proof {
        assert(props@.take(0) =~= Seq::<(String, RawValue)>::empty());
        assert(props_view(out@) =~= resolved_props(class@, props@.take(0)));
        assert(warn_view(warnings@) =~= warn_view(warnings@) + property_warnings(
            class@,
            props@.take(0),
        ));
        assert(pending_view(pending@) =~= pending_view(pending@) + pending_additions(
            class@,
            props@.take(0),
            source as int,
        ));
    }
    while i < props.len()
        invariant
            i <= props@.len(),
            props_view(out@) == resolved_props(class@, props@.take(i as int)),
            warn_view(warnings@) == warn_view(old(warnings)@) + property_warnings(
                class@,
                props@.take(i as int),
            ),
            pending_view(pending@) == pending_view(old(pending)@) + pending_additions(
                class@,
                props@.take(i as int),
                source as int,
            ),
            old(pending)@.len() <= pending@.len(),
            forall|j: int| 0 <= j < old(pending)@.len() ==> pending@[j] == old(pending)@[j],
            old(warnings)@.len() <= warnings@.len(),
            forall|j: int| 0 <= j < old(warnings)@.len() ==> warnings@[j] == old(warnings)@[j],
        decreases props@.len() - i,
    {
        proof {
            assert(props@.take(i as int + 1).drop_last() =~= props@.take(i as int));
            assert(props@.take(i as int + 1).last() == props@[i as int]);
        }
        let key: &String = &props[i].0;
        if !crate::strutil::str_eq(key.as_str(), "Name") {
            let ghost pend_before = pending@;
            match resolve(&props[i].1, class, key.as_str(), source, pending) {
                Ok(v) => {
                    out.push((key.clone(), v));
                    proof {
                        assert(props_view(out@) =~= resolved_props(
                            class@,
                            props@.take(i as int + 1),
                        ));
                    }
                },
                Err(e) => {
                    let ghost warn_before = warnings@;
                    let w = Warning::Property {
                        class: class.to_owned(),
                        prop: key.clone(),
                        reason: e,
                    };
                    let ghost wv = w@;
                    warnings.push(w);
                    proof {
                        assert(warn_view(warnings@) =~= warn_view(warn_before).push(wv));
                        assert(warn_view(warnings@) =~= warn_view(old(warnings)@)
                            + property_warnings(class@, props@.take(i as int + 1)));
                    }
                },
            }
            proof {
                if registers_pending(class@, props@[i as int].0@, props@[i as int].1@) {
                    assert(pending_view(pending@) =~= pending_view(old(pending)@)
                        + pending_additions(class@, props@.take(i as int + 1), source as int));
                }
            }
        }
        i = i + 1;
    }
    proof {
        assert(props@.take(props@.len() as int) =~= props@);
    }
    out
}

/// Computes `effective_name_spec`: scans the property map for a `Name` entry
/// that is a plain string.
pub fn effective_name(props: &Vec<(String, RawValue)>, key: &str) -> (r: String)
    ensures
        r@ == effective_name_spec(props@, key@),
{
    let mut i: usize = 0;
    proof {
        assert(props@.skip(0) =~= props@);
    }
    while i < props.len()
        invariant
            i <= props@.len(),
            name_override(props@) == name_override(props@.skip(i as int)),
        decreases props@.len() - i,
    {
        proof {
            assert(props@.skip(i as int)[0] == props@[i as int]);
            assert(props@.skip(i as int).skip(1) =~= props@.skip(i as int + 1));
        }
        if crate::strutil::str_eq(props[i].0.as_str(), "Name") {
            match &props[i].1 {
                RawValue::Text(s) => {
                    return s.clone();
                },
                _ => {
                    return key.to_owned();
                },
            }
        }
        i = i + 1;
    }
    key.to_owned()
}

/// Every pending reference the property pass registers carries the source
/// index it was given.
pub proof fn lemma_pending_additions_source(
    class: Seq<char>,
    props: Seq<(String, RawValue)>,
    source: int,
)
    ensures
        forall|k: int|
            0 <= k < pending_additions(class, props, source).len() ==> (
            #[trigger] pending_additions(class, props, source)[k]).source == source,
    decreases props.len(),
{
    if props.len() > 0 {
        lemma_pending_additions_source(class, props.drop_last(), source);
        let front = pending_additions(class, props.drop_last(), source);
        let all = pending_additions(class, props, source);
        assert forall|k: int| 0 <= k < all.len() implies (#[trigger] all[k]).source == source by {
            if k < front.len() {
                assert(all[k] == front[k]);
            }
        }
    }
}

/// Does an actual resolved value stand for the expected one? Equal outright,
/// except that a reference slot may hold any target: the finalize pass
/// patches targets after the walk.
pub open spec fn value_matches(actual: ResolvedValueS, expected: ResolvedValueS) -> bool {
    match expected {
        ResolvedValueS::Referent(_) => actual is Referent,
        _ => actual == expected,
    }
}

/// Key-exact, value-matching correspondence of two property lists.
pub open spec fn props_match(
    actual: Seq<(Seq<char>, ResolvedValueS)>,
    expected: Seq<(Seq<char>, ResolvedValueS)>,
) -> bool {
    &&& actual.len() == expected.len()
    &&& forall|i: int|
        0 <= i < actual.len() ==> (#[trigger] actual[i]).0 == expected[i].0 && value_matches(
            actual[i].1,
            expected[i].1,
        )
}

/// The instance at `idx` is the materialization of `node` built under
/// structural key `key`: right class, right name, exactly the resolvable
/// properties (reference targets aside), and children materializing the
/// node's children in order.
pub open spec fn built_node_ok(
    instances: Seq<Instance>,
    idx: int,
    node: ProjectNode,
    key: Seq<char>,
) -> bool
    decreases node,
{
    &&& 0 <= idx < instances.len()
    &&& instances[idx].class@ == effective_class_spec(node.class_name, key)
    &&& instances[idx].name@ == effective_name_spec(node.properties@, key)
    &&& props_match(
        props_view(instances[idx].properties@),
        resolved_props(instances[idx].class@, node.properties@),
    )
    &&& instances[idx].children@.len() == node.children@.len()
    &&& forall|i: int|
        0 <= i < node.children@.len() ==> #[trigger] instances[idx].children@[i] < idx
    &&& forall|i: int|
        0 <= i < node.children@.len() ==> built_node_ok(
            instances,
            #[trigger] instances[idx].children@[i] as int,
            node.children@[i].1,
            node.children@[i].0@,
        )
}

/// The views of the synthetic-id registry.
pub open spec fn reg_view(s: Seq<(String, usize)>) -> Seq<(Seq<char>, int)> {
    s.map_values(|e: (String, usize)| (e.0@, e.1 as int))
}

/// Every id the registry maps points into the arena.
pub open spec fn reg_valid(reg: Seq<(Seq<char>, int)>, arena_len: int) -> bool {
    forall|j: int| 0 <= j < reg.len() ==> 0 <= (#[trigger] reg[j]).1 < arena_len
}

/// Every pending reference names a source inside the arena.
pub open spec fn pending_valid(pend: Seq<PendingReferenceS>, arena_len: int) -> bool {
    forall|k: int| 0 <= k < pend.len() ==> 0 <= (#[trigger] pend[k]).source < arena_len
}

/// How many instances materializing `node` appends to the arena: one per
/// input node of the subtree, exactly.
pub open spec fn node_count(node: ProjectNode) -> int
    decreases node, 0int,
{
    1 + children_count_to(node.children@, node.children@.len() as int)
}

/// The instances the first `n` children of a node contribute.
pub open spec fn children_count_to(children: Seq<(String, ProjectNode)>, n: int) -> int
    decreases children, n,
    via children_count_to_dec
{
    if n <= 0 || children.len() < n {
        0
    } else {
        children_count_to(children, n - 1) + node_count(children[n - 1].1)
    }
}

#[via_fn]
proof fn children_count_to_dec(children: Seq<(String, ProjectNode)>, n: int) {
    if 0 < n <= children.len() {
        assert(decreases_to!(children => children[n - 1]));
        assert(decreases_to!(children[n - 1] => children[n - 1].1));
    }
}

/// Every subtree materializes at least its own node.
pub proof fn lemma_node_count_pos(node: ProjectNode)
    ensures
        node_count(node) >= 1,
    decreases node, 0int,
{
    lemma_children_count_nonneg(node.children@, node.children@.len() as int);
}

/// A child prefix never contributes a negative count.
pub proof fn lemma_children_count_nonneg(children: Seq<(String, ProjectNode)>, n: int)
    ensures
        children_count_to(children, n) >= 0,
    decreases children, n,
{
    if 0 < n <= children.len() {
        assert(decreases_to!(children => children[n - 1]));
        assert(decreases_to!(children[n - 1] => children[n - 1].1));
        lemma_children_count_nonneg(children, n - 1);
        lemma_node_count_pos(children[n - 1].1);
    }
}

/// The warnings materializing `node` under key `key` appends: the children's
/// warnings in order, then the node's own property warnings.
pub open spec fn node_warnings(node: ProjectNode, key: Seq<char>) -> Seq<WarningS>
    decreases node, 0int,
{
    children_warnings_to(node.children@, node.children@.len() as int) + property_warnings(
        effective_class_spec(node.class_name, key),
        node.properties@,
    )
}

/// The warnings the first `n` children of a node contribute.
pub open spec fn children_warnings_to(children: Seq<(String, ProjectNode)>, n: int) -> Seq<
    WarningS,
>
    decreases children, n,
    via children_warnings_to_dec
{
    if n <= 0 || children.len() < n {
        Seq::empty()
    } else {
        children_warnings_to(children, n - 1) + node_warnings(
            children[n - 1].1,
            children[n - 1].0@,
        )
    }
}

#[via_fn]
proof fn children_warnings_to_dec(children: Seq<(String, ProjectNode)>, n: int) {
    if 0 < n <= children.len() {
        assert(decreases_to!(children => children[n - 1]));
        assert(decreases_to!(children[n - 1] => children[n - 1].1));
    }
}

/// The pending references materializing `node` appends, when the subtree's
/// instances occupy the arena from index `base` on: the children's in order,
/// then the node's own, whose source is the node's index `base +
/// node_count(node) - 1`.
pub open spec fn node_pending(node: ProjectNode, key: Seq<char>, base: int) -> Seq<
    PendingReferenceS,
>
    decreases node, 0int,
{
    children_pending_to(node.children@, node.children@.len() as int, base) + pending_additions(
        effective_class_spec(node.class_name, key),
        node.properties@,
        base + node_count(node) - 1,
    )
}

/// The pending references the first `n` children of a node contribute, the
/// subtree of child `i` occupying the arena from `base` plus the counts of
/// its earlier siblings.
pub open spec fn children_pending_to(
    children: Seq<(String, ProjectNode)>,
    n: int,
    base: int,
) -> Seq<PendingReferenceS>
    decreases children, n,
    via children_pending_to_dec
{
    if n <= 0 || children.len() < n {
        Seq::empty()
    } else {
        children_pending_to(children, n - 1, base) + node_pending(
            children[n - 1].1,
            children[n - 1].0@,
            base + children_count_to(children, n - 1),
        )
    }
}

#[via_fn]
proof fn children_pending_to_dec(children: Seq<(String, ProjectNode)>, n: int, base: int) {
    if 0 < n <= children.len() {
        assert(decreases_to!(children => children[n - 1]));
        assert(decreases_to!(children[n - 1] => children[n - 1].1));
    }
}

/// The registry entries materializing `node` under synthetic id `path`
/// appends: the children's in order, then the node's own (its path, its
/// index).
pub open spec fn node_registry(node: ProjectNode, path: Seq<char>, base: int) -> Seq<
    (Seq<char>, int),
>
    decreases node, 0int,
{
    children_registry_to(node.children@, node.children@.len() as int, path, base).push(
        (path, base + node_count(node) - 1),
    )
}

/// The registry entries the first `n` children of a node contribute.
pub open spec fn children_registry_to(
    children: Seq<(String, ProjectNode)>,
    n: int,
    path: Seq<char>,
    base: int,
) -> Seq<(Seq<char>, int)>
    decreases children, n,
    via children_registry_to_dec
{
    if n <= 0 || children.len() < n {
        Seq::empty()
    } else {
        children_registry_to(children, n - 1, path, base) + node_registry(
            children[n - 1].1,
            path + "/"@ + children[n - 1].0@,
            base + children_count_to(children, n - 1),
        )
    }
}

#[via_fn]
proof fn children_registry_to_dec(
    children: Seq<(String, ProjectNode)>,
    n: int,
    path: Seq<char>,
    base: int,
) {
    if 0 < n <= children.len() {
        assert(decreases_to!(children => children[n - 1]));
        assert(decreases_to!(children[n - 1] => children[n - 1].1));
    }
}

/// The instance at `idx` is the materialization of `node` built under
/// structural key `key`, reference targets included: this is what the walk
/// itself guarantees, before the finalize pass touches any target. The walk
/// leaves every reference slot at `Referent(None)`, exactly as
/// `resolved_props` states.
pub open spec fn built_node_exact(
    instances: Seq<Instance>,
    idx: int,
    node: ProjectNode,
    key: Seq<char>,
) -> bool
    decreases node,
{
    &&& 0 <= idx < instances.len()
    &&& instances[idx].class@ == effective_class_spec(node.class_name, key)
    &&& instances[idx].name@ == effective_name_spec(node.properties@, key)
    &&& props_view(instances[idx].properties@) == resolved_props(
        instances[idx].class@,
        node.properties@,
    )
    &&& instances[idx].children@.len() == node.children@.len()
    &&& forall|i: int|
        0 <= i < node.children@.len() ==> #[trigger] instances[idx].children@[i] < idx
    &&& forall|i: int|
        0 <= i < node.children@.len() ==> built_node_exact(
            instances,
            #[trigger] instances[idx].children@[i] as int,
            node.children@[i].1,
            node.children@[i].0@,
        )
}

/// `built_node_exact` only reads the arena at the indices the subtree uses,
/// so it survives appending instances behind them.
pub proof fn lemma_built_node_exact_extend(
    a: Seq<Instance>,
    b: Seq<Instance>,
    idx: int,
    node: ProjectNode,
    key: Seq<char>,
)
    requires
        built_node_exact(a, idx, node, key),
        a.len() <= b.len(),
        forall|j: int| 0 <= j < a.len() ==> a[j] == #[trigger] b[j],
    ensures
        built_node_exact(b, idx, node, key),
    decreases node,
{
    assert(b[idx] == a[idx]);
    assert forall|i: int| 0 <= i < node.children@.len() implies built_node_exact(
        b,
        #[trigger] b[idx].children@[i] as int,
        node.children@[i].1,
        node.children@[i].0@,
    ) by {
        lemma_built_node_exact_extend(
            a,
            b,
            a[idx].children@[i] as int,
            node.children@[i].1,
            node.children@[i].0@,
        );
    }
}

/// The exact correspondence implies the reference-tolerant one.
pub proof fn lemma_built_node_exact_implies_ok(
    instances: Seq<Instance>,
    idx: int,
    node: ProjectNode,
    key: Seq<char>,
)
    requires
        built_node_exact(instances, idx, node, key),
    ensures
        built_node_ok(instances, idx, node, key),
    decreases node,
{
    let expected = resolved_props(instances[idx].class@, node.properties@);
    assert forall|p: int|
        0 <= p < props_view(instances[idx].properties@).len() implies (#[trigger] props_view(
        instances[idx].properties@,
    )[p]).0 == expected[p].0 && value_matches(
        props_view(instances[idx].properties@)[p].1,
        expected[p].1,
    ) by {
        assert(props_view(instances[idx].properties@)[p] == expected[p]);
    }
    assert forall|i: int| 0 <= i < node.children@.len() implies built_node_ok(
        instances,
        #[trigger] instances[idx].children@[i] as int,
        node.children@[i].1,
        node.children@[i].0@,
    ) by {
        lemma_built_node_exact_implies_ok(
            instances,
            instances[idx].children@[i] as int,
            node.children@[i].1,
            node.children@[i].0@,
        );
    }
}

/// Materializes one node of the input tree under structural key `key` and
/// synthetic id `path`: children first, then the instance itself, appended
/// to the arena and registered under its path. The call appends exactly one
/// instance per input node, the subtree correspondence `built_node_exact`,
/// exactly the subtree's warnings, pending references and registry entries,
/// and preserves everything already in the four lists.
pub fn build_node(
    node: &ProjectNode,
    key: &str,
    path: &str,
    instances: &mut Vec<Instance>,
    registry: &mut Vec<(String, usize)>,
    pending: &mut Vec<PendingReference>,
    warnings: &mut Vec<Warning>,
) -> (idx: usize)
    requires
        reg_valid(reg_view(old(registry)@), old(instances)@.len() as int),
        pending_valid(pending_view(old(pending)@), old(instances)@.len() as int),
    ensures
        final(instances)@.len() == old(instances)@.len() + node_count(*node),
        idx == final(instances)@.len() - 1,
        forall|j: int|
            0 <= j < old(instances)@.len() ==> final(instances)@[j] == old(instances)@[j],
        built_node_exact(final(instances)@, idx as int, *node, key@),
        forall|j: int| 0 <= j < old(registry)@.len() ==> final(registry)@[j] == old(registry)@[j],
        reg_view(final(registry)@) == reg_view(old(registry)@) + node_registry(
            *node,
            path@,
            old(instances)@.len() as int,
        ),
        reg_valid(reg_view(final(registry)@), final(instances)@.len() as int),
        forall|j: int| 0 <= j < old(pending)@.len() ==> final(pending)@[j] == old(pending)@[j],
        pending_view(final(pending)@) == pending_view(old(pending)@) + node_pending(
            *node,
            key@,
            old(instances)@.len() as int,
        ),
        pending_valid(pending_view(final(pending)@), final(instances)@.len() as int),
        forall|j: int| 0 <= j < old(warnings)@.len() ==> final(warnings)@[j] == old(warnings)@[j],
        warn_view(final(warnings)@) == warn_view(old(warnings)@) + node_warnings(*node, key@),
    decreases *node,
{
    let class: String = match &node.class_name {
        Some(c) => c.clone(),
        None => match infer_class_from_name(key) {
            Some(service) => service.to_owned(),
            None => String::from_str("Folder"),
        },
    };
    let name: String = effective_name(&node.properties, key);

    // Children first: the node itself takes the next free index afterwards.
    let mut child_indices: Vec<usize> = Vec::new();
    let mut i: usize = 0;
    proof {
        assert(reg_view(registry@) =~= reg_view(old(registry)@) + children_registry_to(
            node.children@,
            0,
            path@,
            old(instances)@.len() as int,
        ));
        assert(pending_view(pending@) =~= pending_view(old(pending)@) + children_pending_to(
            node.children@,
            0,
            old(instances)@.len() as int,
        ));
        assert(warn_view(warnings@) =~= warn_view(old(warnings)@) + children_warnings_to(
            node.children@,
            0,
        ));
    }
    while i < node.children.len()
        invariant
            i <= node.children@.len(),
            child_indices@.len() == i,
            instances@.len() == old(instances)@.len() + children_count_to(
                node.children@,
                i as int,
            ),
            forall|j: int|
                0 <= j < old(instances)@.len() ==> instances@[j] == old(instances)@[j],
            forall|k: int|
                0 <= k < i ==> built_node_exact(
                    instances@,
                    #[trigger] child_indices@[k] as int,
                    node.children@[k].1,
                    node.children@[k].0@,
                ),
            forall|k: int| 0 <= k < i ==> (#[trigger] child_indices@[k]) < instances@.len(),
            forall|j: int| 0 <= j < old(registry)@.len() ==> registry@[j] == old(registry)@[j],
            reg_view(registry@) == reg_view(old(registry)@) + children_registry_to(
                node.children@,
                i as int,
                path@,
                old(instances)@.len() as int,
            ),
            reg_valid(reg_view(registry@), instances@.len() as int),
            forall|j: int| 0 <= j < old(pending)@.len() ==> pending@[j] == old(pending)@[j],
            pending_view(pending@) == pending_view(old(pending)@) + children_pending_to(
                node.children@,
                i as int,
                old(instances)@.len() as int,
            ),
            pending_valid(pending_view(pending@), instances@.len() as int),
            forall|j: int| 0 <= j < old(warnings)@.len() ==> warnings@[j] == old(warnings)@[j],
            warn_view(warnings@) == warn_view(old(warnings)@) + children_warnings_to(
                node.children@,
                i as int,
            ),
        decreases node.children@.len() - i,
    {
        let child_key: &String = &node.children[i].0;
        let mut child_path: String = path.to_owned();
        child_path.append("/");
        child_path.append(child_key.as_str());
        let ghost prev = instances@;
        let ghost prev_reg = reg_view(registry@);
        let ghost prev_pend = pending_view(pending@);
        let ghost prev_warn = warn_view(warnings@);
        let ghost child_base = instances@.len() as int;
        proof {
            assert(decreases_to!(*node => node.children@[i as int].1));
            assert(child_path@ == path@ + "/"@ + node.children@[i as int].0@);
            lemma_children_count_nonneg(node.children@, i as int);
            lemma_node_count_pos(node.children@[i as int].1);
        }
        let child_idx: usize = build_node(
            &node.children[i].1,
            child_key.as_str(),
            child_path.as_str(),
            instances,
            registry,
            pending,
            warnings,
        );
        child_indices.push(child_idx);
        proof {
            assert forall|k: int| 0 <= k < i implies built_node_exact(
                instances@,
                #[trigger] child_indices@[k] as int,
                node.children@[k].1,
                node.children@[k].0@,
            ) by {
                lemma_built_node_exact_extend(
                    prev,
                    instances@,
                    child_indices@[k] as int,
                    node.children@[k].1,
                    node.children@[k].0@,
                );
            }
            assert(children_count_to(node.children@, i as int + 1) == children_count_to(
                node.children@,
                i as int,
            ) + node_count(node.children@[i as int].1));
            assert(reg_view(registry@) =~= reg_view(old(registry)@) + children_registry_to(
                node.children@,
                i as int + 1,
                path@,
                old(instances)@.len() as int,
            )) by {
                assert(reg_view(registry@) == prev_reg + node_registry(
                    node.children@[i as int].1,
                    child_path@,
                    child_base,
                ));
            }
            assert(pending_view(pending@) =~= pending_view(old(pending)@) + children_pending_to(
                node.children@,
                i as int + 1,
                old(instances)@.len() as int,
            )) by {
                assert(pending_view(pending@) == prev_pend + node_pending(
                    node.children@[i as int].1,
                    node.children@[i as int].0@,
                    child_base,
                ));
            }
            assert(warn_view(warnings@) =~= warn_view(old(warnings)@) + children_warnings_to(
                node.children@,
                i as int + 1,
            )) by {
                assert(warn_view(warnings@) == prev_warn + node_warnings(
                    node.children@[i as int].1,
                    node.children@[i as int].0@,
                ));
            }
        }
        i = i + 1;
    }

    let self_idx: usize = instances.len();
    let ghost before_props = instances@;
    let ghost pend_before = pending@;
    let ghost warn_before = warnings@;
    let props: Vec<(String, ResolvedValue)> = resolve_props(
        class.as_str(),
        &node.properties,
        self_idx,
        pending,
        warnings,
    );
    let instance = Instance { class, name, properties: props, children: child_indices };
    let ghost inst_snapshot = instance;
    let ghost reg_before = registry@;
    instances.push(instance);
    registry.push((path.to_owned(), self_idx));
    proof {
        assert(instances@[self_idx as int] == inst_snapshot);
        lemma_children_count_nonneg(node.children@, node.children@.len() as int);
        assert(inst_snapshot.class@ == effective_class_spec(node.class_name, key@));
        assert(node_count(*node) == 1 + children_count_to(
            node.children@,
            node.children@.len() as int,
        ));
        assert(self_idx as int == old(instances)@.len() + node_count(*node) - 1);
        assert(reg_view(registry@) =~= reg_view(reg_before).push((path@, self_idx as int)));
        assert(reg_view(registry@) =~= reg_view(old(registry)@) + node_registry(
            *node,
            path@,
            old(instances)@.len() as int,
        ));
        assert forall|j: int| 0 <= j < reg_view(registry@).len() implies 0 <= (#[trigger] reg_view(
            registry@,
        )[j]).1 < instances@.len() as int by {
            if j < reg_before.len() {
                assert(reg_view(registry@)[j] == reg_view(reg_before)[j]);
            }
        }
        assert(pending_view(pending@) =~= pending_view(old(pending)@) + node_pending(
            *node,
            key@,
            old(instances)@.len() as int,
        ));
        lemma_pending_additions_source(inst_snapshot.class@, node.properties@, self_idx as int);
        assert forall|k: int| 0 <= k < pending_view(pending@).len() implies 0 <= (
        #[trigger] pending_view(pending@)[k]).source < instances@.len() as int by {
            let a = pending_view(pend_before);
            let b = pending_additions(inst_snapshot.class@, node.properties@, self_idx as int);
            assert(pending_view(pending@) == a + b);
            if k < a.len() {
                assert((a + b)[k] == a[k]);
            } else {
                assert((a + b)[k] == b[k - a.len()]);
            }
        }
        assert(warn_view(warnings@) =~= warn_view(old(warnings)@) + node_warnings(*node, key@));
        assert forall|i2: int| 0 <= i2 < node.children@.len() implies built_node_exact(
            instances@,
            #[trigger] instances@[self_idx as int].children@[i2] as int,
            node.children@[i2].1,
            node.children@[i2].0@,
        ) by {
            lemma_built_node_exact_extend(
                before_props,
                instances@,
                inst_snapshot.children@[i2] as int,
                node.children@[i2].1,
                node.children@[i2].0@,
            );
        }
        assert(built_node_exact(instances@, self_idx as int, *node, key@));
    }
    self_idx
}

/// The name the root instance is built under: the document's name where it
/// gives one, else a fixed fallback.
pub open spec fn root_key_spec(name: Option<String>) -> Seq<char> {
    match name {
        Some(n) => n@,
        None => "ROOT"@,
    }
}

/// Everything one build produces: the materialized tree and the warnings of
/// both passes, in order.
#[derive(Debug)]
pub struct BuildResult {
    pub dom: Dom,
    pub warnings: Vec<Warning>,
}

/// Materializes a whole document: builds the tree in one walk, then runs the
/// reference finalize pass exactly once over the completed arena.
pub fn build_project(project: &Project) -> (r: BuildResult)
    ensures
        r.dom.instances@.len() == node_count(project.tree),
        r.dom.root == r.dom.instances@.len() - 1,
        built_node_ok(
            r.dom.instances@,
            r.dom.root as int,
            project.tree,
            root_key_spec(project.name),
        ),
        warn_view(r.warnings@) == node_warnings(project.tree, root_key_spec(project.name))
            + crate::refs::unresolved_warnings(
            node_pending(project.tree, root_key_spec(project.name), 0),
            node_registry(project.tree, root_key_spec(project.name), 0),
        ),
{
    let root_key: String = match &project.name {
        Some(n) => n.clone(),
        None => String::from_str("ROOT"),
    };
    let mut instances: Vec<Instance> = Vec::new();
    let mut registry: Vec<(String, usize)> = Vec::new();
    let mut pending: Vec<PendingReference> = Vec::new();
    let mut warnings: Vec<Warning> = Vec::new();
    let root: usize = build_node(
        &project.tree,
        root_key.as_str(),
        root_key.as_str(),
        &mut instances,
        &mut registry,
        &mut pending,
        &mut warnings,
    );
    let ghost built = instances@;
    let ghost walk_warns = warn_view(warnings@);
    proof {
        lemma_node_count_pos(project.tree);
        assert(reg_view(registry@) =~= node_registry(
            project.tree,
            root_key_spec(project.name),
            0,
        ));
        assert(pending_view(pending@) =~= node_pending(
            project.tree,
            root_key_spec(project.name),
            0,
        ));
        assert(walk_warns =~= node_warnings(project.tree, root_key_spec(project.name)));
    }
    crate::refs::finalize_references(&mut instances, &registry, &pending, &mut warnings);
    proof {
        lemma_built_node_exact_implies_ok(built, root as int, project.tree, root_key_spec(
            project.name,
        ));
        crate::refs::lemma_built_node_ok_after_patch(
            built,
            instances@,
            root as int,
            project.tree,
            root_key_spec(project.name),
        );
        assert(warn_view(warnings@) =~= node_warnings(project.tree, root_key_spec(project.name))
            + crate::refs::unresolved_warnings(
            node_pending(project.tree, root_key_spec(project.name), 0),
            node_registry(project.tree, root_key_spec(project.name), 0),
        ));
    }
    BuildResult { dom: Dom { instances, root }, warnings }
}

/// The top-level entries handed to an encoder. If the root resolved to the
/// distinguished whole-simulation root class, the root itself is never
/// emitted: each of its direct children becomes an independent top-level
/// entry. Otherwise the root is the sole top-level entry.
pub fn top_level_indices(dom: &Dom) -> (r: Vec<usize>)
    requires
        dom.root < dom.instances@.len(),
    ensures
        dom.instances@[dom.root as int].class@ == "DataModel"@ ==> r@ == dom.instances@[
            dom.root as int].children@,
        dom.instances@[dom.root as int].class@ != "DataModel"@ ==> r@ == seq![dom.root],
{
    if crate::strutil::str_eq(dom.instances[dom.root].class.as_str(), "DataModel") {
        let children: &Vec<usize> = &dom.instances[dom.root].children;
        let mut out: Vec<usize> = Vec::new();
        let mut i: usize = 0;
        while i < children.len()
            invariant
                i <= children@.len(),
                out@ == children@.take(i as int),
            decreases children@.len() - i,
        {
            out.push(children[i]);
            proof {
                assert(out@ =~= children@.take(i as int + 1));
            }
            i = i + 1;
        }
        proof {
            assert(children@.take(children@.len() as int) =~= children@);
        }
        out
    } else {
        let mut out: Vec<usize> = Vec::new();
        out.push(dom.root);
        proof {
            assert(out@ =~= seq![dom.root]);
        }
        out
    }
}

} // verus!
