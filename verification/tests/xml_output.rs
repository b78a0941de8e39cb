//! End-to-end tests: a JSON project document is parsed, resolved and built
//! by the library, then encoded to the XML wire format by the external
//! encoder, and the XML text is checked.

use rojo_build_lite::build_project;
use rojo_build_lite::top_level_indices;
use rojo_build_lite::Dom;
use rojo_build_lite::Project;
use rojo_build_lite::ProjectNode;
use rojo_build_lite::RawValue;
use rojo_build_lite::ResolvedValue;

use rbx_dom_weak::types::CFrame;
use rbx_dom_weak::types::Color3;
use rbx_dom_weak::types::Enum;
use rbx_dom_weak::types::Matrix3;
use rbx_dom_weak::types::Ref;
use rbx_dom_weak::types::Variant;
use rbx_dom_weak::types::Vector3;
use rbx_dom_weak::InstanceBuilder;
use rbx_dom_weak::WeakDom;

const MICROS: f64 = 1_000_000.0;

fn to_micros(n: f64) -> i64 {
    (n * MICROS).round() as i64
}

fn raw_from_json(v: &serde_json::Value) -> RawValue {
    match v {
        serde_json::Value::Null => RawValue::Null,
        serde_json::Value::Bool(b) => RawValue::Bool(*b),
        serde_json::Value::Number(n) => RawValue::Number(to_micros(n.as_f64().unwrap_or(0.0))),
        serde_json::Value::String(s) => RawValue::Text(s.clone()),
        serde_json::Value::Array(items) => {
            if items.iter().all(|i| i.is_number()) {
                RawValue::NumberSeq(
                    items
                        .iter()
                        .map(|i| to_micros(i.as_f64().unwrap_or(0.0)))
                        .collect(),
                )
            } else if items.iter().all(|i| i.is_string()) {
                RawValue::TextSeq(
                    items
                        .iter()
                        .map(|i| i.as_str().unwrap_or("").to_string())
                        .collect(),
                )
            } else {
                // A mixed-type array has no raw-value shape; an empty
                // mapping stands in for it, which resolution rejects
                // against every declared type.
                RawValue::Mapping(Vec::new())
            }
        }
        serde_json::Value::Object(map) => RawValue::Mapping(
            map.iter().map(|(k, x)| (k.clone(), raw_from_json(x))).collect(),
        ),
    }
}

fn node_from_json(v: &serde_json::Value) -> Result<ProjectNode, String> {
    let obj = v.as_object().ok_or("node is not an object")?;
    let mut class_name: Option<String> = None;
    let mut properties: Vec<(String, RawValue)> = Vec::new();
    let mut children: Vec<(String, ProjectNode)> = Vec::new();
    for (key, val) in obj {
        if key == "$className" {
            class_name = Some(val.as_str().ok_or("$className is not a string")?.to_string());
        } else if key == "$properties" {
            let props = val.as_object().ok_or("$properties is not an object")?;
            for (pk, pv) in props {
                properties.push((pk.clone(), raw_from_json(pv)));
            }
        } else {
            children.push((key.clone(), node_from_json(val)?));
        }
    }
    Ok(ProjectNode { class_name, properties, children })
}

fn project_from_json(text: &str) -> Result<Project, String> {
    let v: serde_json::Value = serde_json::from_str(text).map_err(|e| e.to_string())?;
    let obj = v.as_object().ok_or("document is not an object")?;
    let name = obj
        .get("name")
        .and_then(|n| n.as_str())
        .map(|s| s.to_string());
    let tree = node_from_json(obj.get("tree").ok_or("document has no tree")?)?;
    Ok(Project { name, tree })
}

fn variant_of(v: &ResolvedValue) -> Variant {
    match v {
        ResolvedValue::Bool(b) => Variant::Bool(*b),
        ResolvedValue::Int32(n) => Variant::Int32(*n),
        ResolvedValue::Int64(n) => Variant::Int64(*n),
        ResolvedValue::Float32(m) => Variant::Float32((*m as f64 / MICROS) as f32),
        ResolvedValue::Float64(m) => Variant::Float64(*m as f64 / MICROS),
        ResolvedValue::Text(s) => Variant::String(s.clone()),
        ResolvedValue::Vector3(vec) => Variant::Vector3(Vector3::new(
            (vec.x as f64 / MICROS) as f32,
            (vec.y as f64 / MICROS) as f32,
            (vec.z as f64 / MICROS) as f32,
        )),
        ResolvedValue::Color3 { r, g, b } => Variant::Color3(Color3::new(
            *r as f32 / 255.0,
            *g as f32 / 255.0,
            *b as f32 / 255.0,
        )),
        ResolvedValue::Rotation(rot) => {
            let f = |m: i64| (m as f64 / MICROS) as f32;
            Variant::CFrame(CFrame::new(
                Vector3::new(f(rot.position.x), f(rot.position.y), f(rot.position.z)),
                Matrix3::new(
                    Vector3::new(f(rot.basis[0]), f(rot.basis[1]), f(rot.basis[2])),
                    Vector3::new(f(rot.basis[3]), f(rot.basis[4]), f(rot.basis[5])),
                    Vector3::new(f(rot.basis[6]), f(rot.basis[7]), f(rot.basis[8])),
                ),
            ))
        }
        ResolvedValue::EnumToken(id) => Variant::Enum(Enum::from_u32(*id)),
        ResolvedValue::Referent(_) => Variant::Ref(Ref::none()),
    }
}

fn builder_for(dom: &Dom, idx: usize) -> InstanceBuilder {
    let inst = &dom.instances[idx];
    let mut b = InstanceBuilder::new(inst.class.as_str()).with_name(inst.name.as_str());
    for (k, v) in &inst.properties {
        b = b.with_property(k.as_str(), variant_of(v));
    }
    for c in &inst.children {
        b = b.with_child(builder_for(dom, *c));
    }
    b
}

fn ref_map(dom: &Dom, weak: &WeakDom, lib_idx: usize, weak_ref: Ref, map: &mut Vec<Ref>) {
    map[lib_idx] = weak_ref;
    let weak_children: Vec<Ref> = weak.get_by_ref(weak_ref).unwrap().children().to_vec();
    for (pos, c) in dom.instances[lib_idx].children.iter().enumerate() {
        ref_map(dom, weak, *c, weak_children[pos], map);
    }
}

fn json_to_xml(text: &str) -> Result<String, String> {
    let project = project_from_json(text)?;
    let result = build_project(&project);
    let dom = &result.dom;
    let weak = WeakDom::new(builder_for(dom, dom.root));
    let mut map: Vec<Ref> = vec![Ref::none(); dom.instances.len()];
    ref_map(dom, &weak, dom.root, weak.root_ref(), &mut map);
    let ids: Vec<Ref> = top_level_indices(dom).iter().map(|i| map[*i]).collect();
    let mut buffer: Vec<u8> = Vec::new();
    rbx_xml::to_writer_default(&mut buffer, &weak, &ids).map_err(|e| e.to_string())?;
    String::from_utf8(buffer).map_err(|e| e.to_string())
}

#[test]
fn test_simple_folder() {
    let json = r#"{
        "name": "TestProject",
        "tree": {
            "$className": "Folder"
        }
    }"#;

    let xml = json_to_xml(json).expect("Failed to convert JSON to XML");
    assert!(xml.contains(r#"<Item class="Folder""#));
    assert!(xml.contains(r#"<string name="Name">TestProject</string>"#));
}

#[test]
fn test_no_duplicate_name_property() {
    let json = r#"{
        "name": "Test",
        "tree": {
            "$className": "DataModel",
            "ServerScriptService": {
                "$className": "ServerScriptService",
                "MyScript": {
                    "$className": "Script",
                    "$properties": {
                        "Name": "MyScript",
                        "Source": "print('hello')"
                    }
                }
            }
        }
    }"#;

    let xml = json_to_xml(json).expect("Failed to convert JSON to XML");

    let name_count = xml.matches(r#"<string name="Name">MyScript</string>"#).count();
    assert_eq!(name_count, 1, "Name property should appear exactly once, not duplicated");

    assert!(xml.contains(r#"<string name="Source">print('hello')</string>"#));
}

#[test]
fn test_custom_name_override() {
    let json = r#"{
        "name": "Test",
        "tree": {
            "$className": "DataModel",
            "Workspace": {
                "$className": "Workspace",
                "PartKey": {
                    "$className": "Part",
                    "$properties": {
                        "Name": "CustomPartName"
                    }
                }
            }
        }
    }"#;

    let xml = json_to_xml(json).expect("Failed to convert JSON to XML");

    assert!(xml.contains(r#"<string name="Name">CustomPartName</string>"#));
    assert!(!xml.contains(r#"<string name="Name">PartKey</string>"#));
}

#[test]
fn test_service_inference() {
    let json = r#"{
        "name": "Test",
        "tree": {
            "$className": "DataModel",
            "Workspace": {
                "MyPart": {
                    "$className": "Part"
                }
            },
            "ReplicatedStorage": {
                "MyFolder": {
                    "$className": "Folder"
                }
            }
        }
    }"#;

    let xml = json_to_xml(json).expect("Failed to convert JSON to XML");

    assert!(xml.contains(r#"<Item class="Workspace""#));
    assert!(xml.contains(r#"<Item class="ReplicatedStorage""#));
}

#[test]
fn test_nested_children() {
    let json = r#"{
        "name": "Test",
        "tree": {
            "$className": "Folder",
            "Child1": {
                "$className": "Folder",
                "GrandChild": {
                    "$className": "Folder"
                }
            },
            "Child2": {
                "$className": "Folder"
            }
        }
    }"#;

    let xml = json_to_xml(json).expect("Failed to convert JSON to XML");

    assert!(xml.contains(r#"<string name="Name">Test</string>"#));
    assert!(xml.contains(r#"<string name="Name">Child1</string>"#));
    assert!(xml.contains(r#"<string name="Name">Child2</string>"#));
    assert!(xml.contains(r#"<string name="Name">GrandChild</string>"#));
}

#[test]
fn test_script_with_source() {
    let json = r#"{
        "name": "Test",
        "tree": {
            "$className": "Script",
            "$properties": {
                "Source": "print('Hello, World!')"
            }
        }
    }"#;

    let xml = json_to_xml(json).expect("Failed to convert JSON to XML");

    assert!(xml.contains(r#"<Item class="Script""#));
    assert!(xml.contains(r#"<string name="Source">print('Hello, World!')</string>"#));
}

#[test]
fn test_vector3_property() {
    let json = r#"{
        "name": "Test",
        "tree": {
            "$className": "Part",
            "$properties": {
                "Size": [10, 20, 30]
            }
        }
    }"#;

    let xml = json_to_xml(json).expect("Failed to convert JSON to XML");

    assert!(xml.contains(r#"<Vector3 name="size">"#));
    assert!(xml.contains("<X>10</X>"));
    assert!(xml.contains("<Y>20</Y>"));
    assert!(xml.contains("<Z>30</Z>"));
}

#[test]
fn test_boolean_property() {
    let json = r#"{
        "name": "Test",
        "tree": {
            "$className": "Part",
            "$properties": {
                "Anchored": true
            }
        }
    }"#;

    let xml = json_to_xml(json).expect("Failed to convert JSON to XML");

    assert!(xml.contains(r#"<bool name="Anchored">true</bool>"#));
}

#[test]
fn test_number_properties() {
    let json = r#"{
        "name": "Test",
        "tree": {
            "$className": "Part",
            "$properties": {
                "Transparency": 0.5
            }
        }
    }"#;

    let xml = json_to_xml(json).expect("Failed to convert JSON to XML");

    assert!(xml.contains(r#"<float name="Transparency">0.5</float>"#));
}

#[test]
fn test_color3_property() {
    let json = r#"{
        "name": "Test",
        "tree": {
            "$className": "Part",
            "$properties": {
                "Color": [1, 0.5, 0.25]
            }
        }
    }"#;

    let xml = json_to_xml(json).expect("Failed to convert JSON to XML");

    assert!(xml.contains(r#"<Color3uint8 name="Color3uint8">"#));
}

#[test]
fn test_datamodel_place_file() {
    let json = r#"{
        "name": "PlaceFile",
        "tree": {
            "$className": "DataModel",
            "Workspace": {
                "$className": "Workspace"
            },
            "ServerScriptService": {
                "$className": "ServerScriptService"
            }
        }
    }"#;

    let xml = json_to_xml(json).expect("Failed to convert JSON to XML");

    assert!(!xml.contains(r#"<Item class="DataModel""#));
    assert!(xml.contains(r#"<Item class="Workspace""#));
    assert!(xml.contains(r#"<Item class="ServerScriptService""#));
}

#[test]
fn test_model_file() {
    let json = r#"{
        "name": "MyModel",
        "tree": {
            "$className": "Model",
            "Part1": {
                "$className": "Part"
            }
        }
    }"#;

    let xml = json_to_xml(json).expect("Failed to convert JSON to XML");

    assert!(xml.contains(r#"<Item class="Model""#));
    assert!(xml.contains(r#"<string name="Name">MyModel</string>"#));
}

#[test]
fn test_cframe_property() {
    let json = r#"{
        "name": "Test",
        "tree": {
            "$className": "Part",
            "$properties": {
                "CFrame": [0, 10, 0, 1, 0, 0, 0, 1, 0, 0, 0, 1]
            }
        }
    }"#;

    let xml = json_to_xml(json).expect("Failed to convert JSON to XML");

    assert!(xml.contains(r#"<CoordinateFrame name="CFrame">"#));
    assert!(xml.contains("<X>0</X>"));
    assert!(xml.contains("<Y>10</Y>"));
    assert!(xml.contains("<Z>0</Z>"));
}

#[test]
fn test_enum_property() {
    let json = r#"{
        "name": "Test",
        "tree": {
            "$className": "Part",
            "$properties": {
                "Material": "Grass"
            }
        }
    }"#;

    let xml = json_to_xml(json).expect("Failed to convert JSON to XML");

    assert!(xml.contains(r#"<token name="Material">"#));
}

#[test]
fn test_multiple_properties() {
    let json = r#"{
        "name": "Test",
        "tree": {
            "$className": "Part",
            "$properties": {
                "Size": [4, 4, 4],
                "Anchored": true,
                "Transparency": 0.5,
                "Color": [1, 0, 0]
            }
        }
    }"#;

    let xml = json_to_xml(json).expect("Failed to convert JSON to XML");

    assert!(xml.contains(r#"<Vector3 name="size">"#));
    assert!(xml.contains(r#"<bool name="Anchored">true</bool>"#));
    assert!(xml.contains(r#"<float name="Transparency">0.5</float>"#));
    assert!(xml.contains(r#"<Color3uint8 name="Color3uint8">"#));
}

#[test]
fn test_sibling_textual_order() {
    let json = r#"{
        "name": "Order",
        "tree": {
            "$className": "Folder",
            "Zeta": {
                "$className": "Folder"
            },
            "Alpha": {
                "$className": "Folder"
            }
        }
    }"#;

    let xml = json_to_xml(json).expect("Failed to convert JSON to XML");

    // Children keep the document's textual order, not key order.
    let zeta = xml.find(r#"<string name="Name">Zeta</string>"#).unwrap();
    let alpha = xml.find(r#"<string name="Name">Alpha</string>"#).unwrap();
    assert!(zeta < alpha);
}

#[test]
fn test_folder_without_explicit_classname() {
    let json = r#"{
        "name": "Test",
        "tree": {
            "$className": "DataModel",
            "Workspace": {
                "$className": "Workspace",
                "SomeFolder": {
                    "InnerFolder": {}
                }
            }
        }
    }"#;

    let xml = json_to_xml(json).expect("Failed to convert JSON to XML");

    assert!(xml.contains(r#"<string name="Name">SomeFolder</string>"#));
    assert!(xml.contains(r#"<string name="Name">InnerFolder</string>"#));
}
