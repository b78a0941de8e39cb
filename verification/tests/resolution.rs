//! Unit tests of the resolution engine itself: schema lookup, typed and
//! context-free value resolution, class inference, name handling, the
//! reference pass, and the top-level output rule.

use rojo_build_lite::build_project;
use rojo_build_lite::color_channel;
use rojo_build_lite::enum_item_id;
use rojo_build_lite::infer_class_from_name;
use rojo_build_lite::lookup;
use rojo_build_lite::resolve;
use rojo_build_lite::resolve_unambiguous;
use rojo_build_lite::str_eq;
use rojo_build_lite::str_starts_with;
use rojo_build_lite::to_whole_units;
use rojo_build_lite::top_level_indices;
use rojo_build_lite::PendingReference;
use rojo_build_lite::Project;
use rojo_build_lite::ProjectNode;
use rojo_build_lite::PropertyType;
use rojo_build_lite::RawValue;
use rojo_build_lite::ResolutionError;
use rojo_build_lite::ResolvedValue;
use rojo_build_lite::Vector3;
use rojo_build_lite::Warning;

fn units(n: i64) -> i64 {
    n * 1_000_000
}

#[test]
fn test_schema_lookup_walks_ancestors() {
    // Anchored is declared on an ancestor of Part, Name on the root class.
    assert_eq!(lookup("Part", "Anchored"), Some(PropertyType::Bool));
    assert_eq!(lookup("Part", "Name"), Some(PropertyType::Text));
    assert_eq!(lookup("Part", "Size"), Some(PropertyType::Vector3));
    assert_eq!(lookup("Part", "CFrame"), Some(PropertyType::Rotation));
    assert_eq!(lookup("Part", "Color"), Some(PropertyType::Color3));
    assert_eq!(lookup("Script", "Source"), Some(PropertyType::Text));
    assert_eq!(lookup("Part", "NoSuchProperty"), None);
    assert_eq!(lookup("NoSuchClass", "Name"), None);
}

#[test]
fn test_enum_wrapper_matches_bundled_table() {
    let expected = rbx_reflection_database::get_bundled()
        .enums
        .get("Material")
        .and_then(|e| e.items.get("Grass"))
        .copied();
    assert!(expected.is_some());
    assert_eq!(enum_item_id("Material", "Grass"), expected);
    assert_eq!(enum_item_id("Material", "NoSuchMaterial"), None);
    assert_eq!(enum_item_id("NoSuchEnum", "Grass"), None);
}

#[test]
fn test_resolve_bool_passthrough() {
    let mut pending: Vec<PendingReference> = Vec::new();
    let r = resolve(&RawValue::Bool(true), "Part", "Anchored", 0, &mut pending);
    assert_eq!(r, Ok(ResolvedValue::Bool(true)));
    let r = resolve(&RawValue::Bool(false), "Part", "Anchored", 0, &mut pending);
    assert_eq!(r, Ok(ResolvedValue::Bool(false)));
    assert!(pending.is_empty());
}

#[test]
fn test_resolve_vector3_exact_components() {
    let mut pending: Vec<PendingReference> = Vec::new();
    let raw = RawValue::NumberSeq(vec![units(10), units(20), units(30)]);
    let r = resolve(&raw, "Part", "Size", 0, &mut pending);
    assert_eq!(
        r,
        Ok(ResolvedValue::Vector3(Vector3 { x: units(10), y: units(20), z: units(30) }))
    );
}

#[test]
fn test_resolve_color3_quantization() {
    let mut pending: Vec<PendingReference> = Vec::new();
    let raw = RawValue::NumberSeq(vec![units(1), 500_000, 250_000]);
    let r = resolve(&raw, "Part", "Color", 0, &mut pending);
    assert_eq!(r, Ok(ResolvedValue::Color3 { r: 255, g: 128, b: 64 }));
}

#[test]
fn test_color_channel_rounding_and_clamping() {
    assert_eq!(color_channel(0), 0);
    assert_eq!(color_channel(units(1)), 255);
    assert_eq!(color_channel(500_000), 128);
    assert_eq!(color_channel(250_000), 64);
    // Out-of-range input clamps before quantization.
    assert_eq!(color_channel(-units(3)), 0);
    assert_eq!(color_channel(units(7)), 255);
    // Half-way points round away from zero: 0.001 -> 0.255 -> 0; 0.01 -> 2.55 -> 3.
    assert_eq!(color_channel(1_000), 0);
    assert_eq!(color_channel(10_000), 3);
}

#[test]
fn test_whole_units_truncates_toward_zero() {
    assert_eq!(to_whole_units(units(5)), 5);
    assert_eq!(to_whole_units(1_500_000), 1);
    assert_eq!(to_whole_units(-1_500_000), -1);
    assert_eq!(to_whole_units(999_999), 0);
    assert_eq!(to_whole_units(-999_999), 0);
}

#[test]
fn test_resolve_rotation_layout() {
    let mut pending: Vec<PendingReference> = Vec::new();
    let mut seq: Vec<i64> = Vec::new();
    for i in 0..12 {
        seq.push(units(i));
    }
    let r = resolve(&RawValue::NumberSeq(seq), "Part", "CFrame", 0, &mut pending);
    match r {
        Ok(ResolvedValue::Rotation(rot)) => {
            assert_eq!(rot.position, Vector3 { x: 0, y: units(1), z: units(2) });
            for j in 0..9 {
                assert_eq!(rot.basis[j], units(3 + j as i64));
            }
        }
        other => panic!("expected a rotation, got {:?}", other),
    }
}

#[test]
fn test_resolve_enum_token() {
    let mut pending: Vec<PendingReference> = Vec::new();
    let expected = enum_item_id("Material", "Grass").unwrap();
    let r = resolve(
        &RawValue::Text("Grass".to_string()),
        "Part",
        "Material",
        0,
        &mut pending,
    );
    assert_eq!(r, Ok(ResolvedValue::EnumToken(expected)));
}

#[test]
fn test_resolve_error_variants() {
    let mut pending: Vec<PendingReference> = Vec::new();
    // Unknown property.
    let r = resolve(&RawValue::Bool(true), "Part", "NoSuchProperty", 0, &mut pending);
    assert_eq!(r, Err(ResolutionError::UnknownProperty));
    // Shape mismatch: a boolean against a vector-typed property.
    let r = resolve(&RawValue::Bool(true), "Part", "Size", 0, &mut pending);
    assert_eq!(r, Err(ResolutionError::TypeMismatch));
    // Wrong sequence length against a vector-typed property.
    let r = resolve(&RawValue::NumberSeq(vec![units(1), units(2)]), "Part", "Size", 0, &mut pending);
    assert_eq!(r, Err(ResolutionError::TypeMismatch));
    // Unknown enumeration item.
    let r = resolve(
        &RawValue::Text("NoSuchMaterial".to_string()),
        "Part",
        "Material",
        0,
        &mut pending,
    );
    assert_eq!(r, Err(ResolutionError::UnknownEnumValue));
    assert!(pending.is_empty());
}

#[test]
fn test_resolve_integer_widths() {
    let mut pending: Vec<PendingReference> = Vec::new();
    // An Int32-typed property declared on an ancestor of Frame.
    assert_eq!(lookup("Frame", "ZIndex"), Some(PropertyType::Int32));
    let r = resolve(&RawValue::Number(units(5)), "Frame", "ZIndex", 0, &mut pending);
    assert_eq!(r, Ok(ResolvedValue::Int32(5)));
    // Fractional input truncates toward zero.
    let r = resolve(&RawValue::Number(2_700_000), "Frame", "ZIndex", 0, &mut pending);
    assert_eq!(r, Ok(ResolvedValue::Int32(2)));
    // A value outside the 32-bit range overflows.
    let r = resolve(&RawValue::Number(units(3_000_000_000)), "Frame", "ZIndex", 0, &mut pending);
    assert_eq!(r, Err(ResolutionError::NumericOverflow));
    // The same magnitude fits a 64-bit property.
    assert_eq!(lookup("IntValue", "Value"), Some(PropertyType::Int64));
    let r = resolve(
        &RawValue::Number(units(3_000_000_000)),
        "IntValue",
        "Value",
        0,
        &mut pending,
    );
    assert_eq!(r, Ok(ResolvedValue::Int64(3_000_000_000)));
}

#[test]
fn test_resolve_unambiguous_shapes() {
    assert_eq!(
        resolve_unambiguous(&RawValue::Bool(true)),
        Ok(ResolvedValue::Bool(true))
    );
    assert_eq!(
        resolve_unambiguous(&RawValue::Number(500_000)),
        Ok(ResolvedValue::Float64(500_000))
    );
    assert_eq!(
        resolve_unambiguous(&RawValue::Text("hi".to_string())),
        Ok(ResolvedValue::Text("hi".to_string()))
    );
    // A 3-number sequence could be a vector or a color: refused, not guessed.
    assert_eq!(
        resolve_unambiguous(&RawValue::NumberSeq(vec![units(1), units(2), units(3)])),
        Err(ResolutionError::NotUnambiguous)
    );
    assert_eq!(
        resolve_unambiguous(&RawValue::Mapping(Vec::new())),
        Err(ResolutionError::NotUnambiguous)
    );
}

#[test]
fn test_infer_class_table() {
    assert_eq!(infer_class_from_name("Workspace"), Some("Workspace"));
    assert_eq!(infer_class_from_name("Lighting"), Some("Lighting"));
    assert_eq!(infer_class_from_name("TestService"), Some("TestService"));
    assert_eq!(infer_class_from_name("SomeFolder"), None);
    assert_eq!(infer_class_from_name(""), None);
}

#[test]
fn test_string_helpers() {
    assert!(str_eq("abc", "abc"));
    assert!(!str_eq("abc", "abd"));
    assert!(!str_eq("abc", "abcd"));
    assert!(str_starts_with("RojoId_xyz", "RojoId_"));
    assert!(!str_starts_with("RojoXd_xyz", "RojoId_"));
    assert!(!str_starts_with("Rojo", "RojoId_"));
}

fn leaf(class: &str) -> ProjectNode {
    ProjectNode { class_name: Some(class.to_string()), properties: Vec::new(), children: Vec::new() }
}

#[test]
fn test_build_bad_property_skipped_with_warning() {
    let node = ProjectNode {
        class_name: Some("Part".to_string()),
        properties: vec![
            ("Size".to_string(), RawValue::Bool(true)),
            ("Anchored".to_string(), RawValue::Bool(true)),
        ],
        children: Vec::new(),
    };
    let project = Project { name: Some("Test".to_string()), tree: node };
    let result = build_project(&project);
    let root = &result.dom.instances[result.dom.root];
    assert_eq!(root.class, "Part");
    // The bad property is omitted; the good one survives.
    assert_eq!(
        root.properties,
        vec![("Anchored".to_string(), ResolvedValue::Bool(true))]
    );
    assert_eq!(
        result.warnings,
        vec![Warning::Property {
            class: "Part".to_string(),
            prop: "Size".to_string(),
            reason: ResolutionError::TypeMismatch,
        }]
    );
}

#[test]
fn test_build_name_override_and_no_name_entry() {
    let node = ProjectNode {
        class_name: Some("Script".to_string()),
        properties: vec![
            ("Name".to_string(), RawValue::Text("Custom".to_string())),
            ("Source".to_string(), RawValue::Text("print('x')".to_string())),
        ],
        children: Vec::new(),
    };
    let project = Project { name: None, tree: node };
    let result = build_project(&project);
    let root = &result.dom.instances[result.dom.root];
    assert_eq!(root.name, "Custom");
    assert!(root.properties.iter().all(|(k, _)| k != "Name"));
    assert_eq!(
        root.properties,
        vec![("Source".to_string(), ResolvedValue::Text("print('x')".to_string()))]
    );
}

#[test]
fn test_build_root_fallback_name() {
    let project = Project { name: None, tree: leaf("Folder") };
    let result = build_project(&project);
    assert_eq!(result.dom.instances[result.dom.root].name, "ROOT");
}

#[test]
fn test_reference_resolved_across_siblings() {
    // Holder points at its sibling through a synthetic id; the target does
    // not exist yet when the reference is encountered.
    let holder = ProjectNode {
        class_name: Some("ObjectValue".to_string()),
        properties: vec![(
            "Value".to_string(),
            RawValue::Text("RojoId_Test/Target".to_string()),
        )],
        children: Vec::new(),
    };
    let tree = ProjectNode {
        class_name: Some("Folder".to_string()),
        properties: Vec::new(),
        children: vec![
            ("Holder".to_string(), holder),
            ("Target".to_string(), leaf("Folder")),
        ],
    };
    let project = Project { name: Some("Test".to_string()), tree };
    let result = build_project(&project);
    let dom = &result.dom;
    let root = &dom.instances[dom.root];
    let holder_idx = root.children[0];
    let target_idx = root.children[1];
    assert_eq!(dom.instances[target_idx].name, "Target");
    assert_eq!(
        dom.instances[holder_idx].properties,
        vec![("Value".to_string(), ResolvedValue::Referent(Some(target_idx)))]
    );
    assert!(result.warnings.is_empty());
}

#[test]
fn test_dangling_reference_warns_and_stays_unresolved() {
    let holder = ProjectNode {
        class_name: Some("ObjectValue".to_string()),
        properties: vec![(
            "Value".to_string(),
            RawValue::Text("RojoId_Nowhere".to_string()),
        )],
        children: Vec::new(),
    };
    let tree = ProjectNode {
        class_name: Some("Folder".to_string()),
        properties: Vec::new(),
        children: vec![("Holder".to_string(), holder)],
    };
    let project = Project { name: Some("Test".to_string()), tree };
    let result = build_project(&project);
    let dom = &result.dom;
    let holder_idx = dom.instances[dom.root].children[0];
    assert_eq!(
        dom.instances[holder_idx].properties,
        vec![("Value".to_string(), ResolvedValue::Referent(None))]
    );
    assert_eq!(
        result.warnings,
        vec![Warning::UnresolvedReference {
            source: holder_idx,
            prop: "Value".to_string(),
            target: "Nowhere".to_string(),
        }]
    );
}

#[test]
fn test_top_level_rule() {
    // A distinguished root: the children become the top-level entries.
    let tree = ProjectNode {
        class_name: Some("DataModel".to_string()),
        properties: Vec::new(),
        children: vec![
            ("Workspace".to_string(), leaf("Workspace")),
            ("ServerScriptService".to_string(), leaf("ServerScriptService")),
        ],
    };
    let project = Project { name: Some("Place".to_string()), tree };
    let result = build_project(&project);
    let tops = top_level_indices(&result.dom);
    assert_eq!(tops, result.dom.instances[result.dom.root].children);
    assert!(!tops.contains(&result.dom.root));

    // Any other root is itself the sole top-level entry.
    let project = Project { name: Some("Model".to_string()), tree: leaf("Model") };
    let result = build_project(&project);
    let tops = top_level_indices(&result.dom);
    assert_eq!(tops, vec![result.dom.root]);
}

#[test]
fn test_service_key_without_class_infers_service() {
    let tree = ProjectNode {
        class_name: Some("DataModel".to_string()),
        properties: Vec::new(),
        children: vec![
            ("Workspace".to_string(), ProjectNode {
                class_name: None,
                properties: Vec::new(),
                children: Vec::new(),
            }),
            ("Misc".to_string(), ProjectNode {
                class_name: None,
                properties: Vec::new(),
                children: Vec::new(),
            }),
        ],
    };
    let project = Project { name: Some("Place".to_string()), tree };
    let result = build_project(&project);
    let dom = &result.dom;
    let root = &dom.instances[dom.root];
    assert_eq!(dom.instances[root.children[0]].class, "Workspace");
    assert_eq!(dom.instances[root.children[1]].class, "Folder");
}
