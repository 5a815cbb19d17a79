use gltfxmp::engine::{
    apply_metadata, clear_metadata, get_packet_value, render_report, update_document,
    update_document_legacy, ApplyError, Category, PacketApplied, ReportEntry, ReportError,
};
use gltfxmp::json_models::asset::Asset;
use gltfxmp::json_models::extension::{Extension, ExtensionsOnly, PacketExtension};
use gltfxmp::json_models::gltf::Gltf;
use gltfxmp::json_models::khr_xmp::{KhrXmp, KhrXmpPacket};
use gltfxmp::json_models::khr_xmp_json_ld::{KhrXmpJsonLd, KhrXmpJsonLdPacket};
use gltfxmp::list_gltf_metadata;
use gltfxmp::managers::KhrXmpJsonLdManager;
use gltfxmp::schema::Schema;
use serde_json::Value;

fn empty_gltf() -> Gltf {
    Gltf {
        asset: Asset {
            version: "2.0".to_string(),
            extensions: None,
            other_fields: Vec::new(),
        },
        extensions_used: None,
        accessors: None,
        animations: None,
        buffers: None,
        buffer_views: None,
        cameras: None,
        images: None,
        materials: None,
        meshes: None,
        nodes: None,
        samplers: None,
        scene: None,
        scenes: None,
        skins: None,
        textures: None,
        extensions: None,
        other_fields: Vec::new(),
    }
}

fn plain_entity() -> ExtensionsOnly {
    ExtensionsOnly {
        extensions: None,
        other_fields: Vec::new(),
    }
}

fn jsonld_entity(index: u64) -> ExtensionsOnly {
    ExtensionsOnly {
        extensions: Some(PacketExtension {
            khr_xmp: None,
            khr_xmp_json_ld: Some(KhrXmpJsonLdPacket {
                packet: Some(index),
            }),
            other_extensions: Vec::new(),
        }),
        other_fields: Vec::new(),
    }
}

fn jsonld_root(n_packets: usize) -> Extension {
    Extension {
        khr_xmp: None,
        khr_xmp_json_ld: Some(KhrXmpJsonLd {
            packets: vec![Value::Null; n_packets],
        }),
        other_extensions: Vec::new(),
    }
}

#[test]
fn apply_then_clear_keeps_token() {
    let mut doc = empty_gltf();
    let r = apply_metadata(&mut doc, Schema::JsonLd, vec![PacketApplied::Asset(3)]);
    assert!(r.is_ok());
    assert_eq!(
        get_packet_value(&doc.asset.extensions, Schema::JsonLd),
        Some(3)
    );
    assert_eq!(
        doc.extensions_used,
        Some(vec!["KHR_xmp_json_ld".to_string()])
    );
    clear_metadata(&mut doc, Schema::JsonLd);
    assert_eq!(get_packet_value(&doc.asset.extensions, Schema::JsonLd), None);
    // The declaration is never removed, even though no tag is left.
    assert_eq!(
        doc.extensions_used,
        Some(vec!["KHR_xmp_json_ld".to_string()])
    );
}

#[test]
fn report_walks_fixed_category_order() {
    let mut doc = empty_gltf();
    doc.extensions = Some(jsonld_root(6));
    doc.asset.extensions = Some(PacketExtension {
        khr_xmp: None,
        khr_xmp_json_ld: Some(KhrXmpJsonLdPacket { packet: Some(2) }),
        other_extensions: Vec::new(),
    });
    doc.meshes = Some(vec![plain_entity(), jsonld_entity(5), plain_entity()]);
    let report = render_report(&doc, Schema::JsonLd).unwrap();
    assert_eq!(report.packets.len(), 6);
    assert_eq!(report.context, None);
    assert_eq!(
        report.entries,
        vec![
            ReportEntry {
                category: Category::Asset,
                entity_index: 0,
                packet_index: 2,
            },
            ReportEntry {
                category: Category::Meshes,
                entity_index: 1,
                packet_index: 5,
            },
        ]
    );
}

#[test]
fn report_orders_all_categories() {
    let mut doc = empty_gltf();
    doc.extensions = Some(jsonld_root(1));
    doc.scenes = Some(vec![jsonld_entity(0)]);
    doc.animations = Some(vec![jsonld_entity(0)]);
    doc.nodes = Some(vec![jsonld_entity(0)]);
    let report = render_report(&doc, Schema::JsonLd).unwrap();
    let cats: Vec<Category> = report.entries.iter().map(|e| e.category).collect();
    assert_eq!(
        cats,
        vec![Category::Animations, Category::Nodes, Category::Scenes]
    );
}

#[test]
fn apply_missing_list_is_safe() {
    let mut doc = empty_gltf();
    let r = apply_metadata(&mut doc, Schema::JsonLd, vec![PacketApplied::Meshes(1)]);
    assert_eq!(r, Err(ApplyError::MissingEntityList(Category::Meshes)));
    // The document is untouched.
    assert_eq!(doc.extensions_used, None);
    assert!(doc.asset.extensions.is_none());
    assert!(doc.meshes.is_none());
}

#[test]
fn apply_reports_first_missing_category() {
    let mut doc = empty_gltf();
    doc.nodes = Some(vec![plain_entity()]);
    let r = apply_metadata(
        &mut doc,
        Schema::JsonLd,
        vec![
            PacketApplied::Nodes(0),
            PacketApplied::Scenes(1),
            PacketApplied::Images(2),
        ],
    );
    assert_eq!(r, Err(ApplyError::MissingEntityList(Category::Scenes)));
    assert_eq!(get_packet_value(&doc.nodes.as_ref().unwrap()[0].extensions, Schema::JsonLd), None);
}

#[test]
fn schemas_place_tags_in_parallel() {
    let mut legacy_doc = empty_gltf();
    let mut jsonld_doc = empty_gltf();
    apply_metadata(&mut legacy_doc, Schema::Legacy, vec![PacketApplied::Asset(1)]).unwrap();
    apply_metadata(&mut jsonld_doc, Schema::JsonLd, vec![PacketApplied::Asset(1)]).unwrap();

    let lb = legacy_doc.asset.extensions.as_ref().unwrap();
    assert_eq!(lb.khr_xmp.as_ref().unwrap().packet, Some(1));
    assert!(lb.khr_xmp_json_ld.is_none());
    assert_eq!(legacy_doc.extensions_used, Some(vec!["KHR_xmp".to_string()]));

    let jb = jsonld_doc.asset.extensions.as_ref().unwrap();
    assert_eq!(jb.khr_xmp_json_ld.as_ref().unwrap().packet, Some(1));
    assert!(jb.khr_xmp.is_none());
    assert_eq!(
        jsonld_doc.extensions_used,
        Some(vec!["KHR_xmp_json_ld".to_string()])
    );
}

#[test]
fn schemas_never_interact() {
    let mut doc = empty_gltf();
    apply_metadata(&mut doc, Schema::Legacy, vec![PacketApplied::Asset(1)]).unwrap();
    apply_metadata(&mut doc, Schema::JsonLd, vec![PacketApplied::Asset(2)]).unwrap();
    assert_eq!(get_packet_value(&doc.asset.extensions, Schema::Legacy), Some(1));
    assert_eq!(get_packet_value(&doc.asset.extensions, Schema::JsonLd), Some(2));
    clear_metadata(&mut doc, Schema::Legacy);
    assert_eq!(get_packet_value(&doc.asset.extensions, Schema::Legacy), None);
    assert_eq!(get_packet_value(&doc.asset.extensions, Schema::JsonLd), Some(2));
}

#[test]
fn report_without_root_extension_fails() {
    let mut doc = empty_gltf();
    // A stray per-entity tag alone does not count: the root extension is
    // the precondition.
    doc.asset.extensions = Some(PacketExtension {
        khr_xmp: None,
        khr_xmp_json_ld: Some(KhrXmpJsonLdPacket { packet: Some(0) }),
        other_extensions: Vec::new(),
    });
    let r = render_report(&doc, Schema::JsonLd);
    assert_eq!(r.err(), Some(ReportError::NoMetadataFound));
    assert_eq!(ReportError::NoMetadataFound.message(), "No metadata found.");
}

#[test]
fn legacy_report_carries_context() {
    let mut doc = empty_gltf();
    doc.extensions = Some(Extension {
        khr_xmp: Some(KhrXmp {
            context: Value::String("ctx".to_string()),
            packets: vec![Value::Bool(true), Value::Null],
        }),
        khr_xmp_json_ld: None,
        other_extensions: Vec::new(),
    });
    let report = render_report(&doc, Schema::Legacy).unwrap();
    assert_eq!(report.context, Some(Value::String("ctx".to_string())));
    assert_eq!(report.packets, vec![Value::Bool(true), Value::Null]);
    assert!(report.entries.is_empty());
    // The structured schema still has no root extension here.
    assert!(render_report(&doc, Schema::JsonLd).is_err());
}

#[test]
fn list_gltf_metadata_selects_schema() {
    let mut doc = empty_gltf();
    doc.extensions = Some(jsonld_root(1));
    assert!(list_gltf_metadata(&doc, false).is_ok());
    assert!(list_gltf_metadata(&doc, true).is_err());
}

#[test]
fn update_replaces_packets_and_retags() {
    let mut doc = empty_gltf();
    // A stale state: an old collection, a stale mesh tag, and data that
    // must survive: an unrecognized extension in both bags.
    doc.extensions = Some(Extension {
        khr_xmp: None,
        khr_xmp_json_ld: Some(KhrXmpJsonLd {
            packets: vec![Value::Null],
        }),
        other_extensions: vec![("EXT_other".to_string(), Value::Bool(true))],
    });
    doc.extensions_used = Some(vec![
        "EXT_other".to_string(),
        "KHR_xmp_json_ld".to_string(),
    ]);
    doc.meshes = Some(vec![ExtensionsOnly {
        extensions: Some(PacketExtension {
            khr_xmp: None,
            khr_xmp_json_ld: Some(KhrXmpJsonLdPacket { packet: Some(0) }),
            other_extensions: vec![("EXT_entity".to_string(), Value::Null)],
        }),
        other_fields: vec![("name".to_string(), Value::String("m".to_string()))],
    }]);
    let metadata = KhrXmpJsonLd {
        packets: vec![Value::Bool(false), Value::Bool(true)],
    };
    let r = update_document(&mut doc, metadata, vec![PacketApplied::Asset(0)]);
    assert!(r.is_ok());
    // The collection is replaced, the unrecognized root extension stays.
    let root = doc.extensions.as_ref().unwrap();
    assert_eq!(
        root.khr_xmp_json_ld.as_ref().unwrap().packets,
        vec![Value::Bool(false), Value::Bool(true)]
    );
    assert_eq!(
        root.other_extensions,
        vec![("EXT_other".to_string(), Value::Bool(true))]
    );
    // The stale mesh tag is cleared; the entity's other data survives.
    let mesh = &doc.meshes.as_ref().unwrap()[0];
    let mb = mesh.extensions.as_ref().unwrap();
    assert!(mb.khr_xmp_json_ld.is_none());
    assert_eq!(mb.other_extensions, vec![("EXT_entity".to_string(), Value::Null)]);
    assert_eq!(
        mesh.other_fields,
        vec![("name".to_string(), Value::String("m".to_string()))]
    );
    // The asset is freshly tagged, and the token is not declared twice.
    assert_eq!(get_packet_value(&doc.asset.extensions, Schema::JsonLd), Some(0));
    assert_eq!(
        doc.extensions_used,
        Some(vec![
            "EXT_other".to_string(),
            "KHR_xmp_json_ld".to_string(),
        ])
    );
}

#[test]
fn update_legacy_replaces_context_and_packets() {
    let mut doc = empty_gltf();
    let metadata = KhrXmp {
        context: Value::String("c".to_string()),
        packets: vec![Value::Null],
    };
    let r = update_document_legacy(&mut doc, metadata, vec![PacketApplied::Asset(0)]);
    assert!(r.is_ok());
    let root = doc.extensions.as_ref().unwrap();
    assert_eq!(
        root.khr_xmp.as_ref().unwrap().context,
        Value::String("c".to_string())
    );
    assert_eq!(root.khr_xmp.as_ref().unwrap().packets, vec![Value::Null]);
    assert_eq!(doc.extensions_used, Some(vec!["KHR_xmp".to_string()]));
    assert_eq!(get_packet_value(&doc.asset.extensions, Schema::Legacy), Some(0));
}

#[test]
fn update_with_missing_list_changes_nothing() {
    let mut doc = empty_gltf();
    let metadata = KhrXmpJsonLd {
        packets: vec![Value::Null],
    };
    let r = update_document(&mut doc, metadata, vec![PacketApplied::Images(4)]);
    assert_eq!(r, Err(ApplyError::MissingEntityList(Category::Images)));
    assert!(doc.extensions.is_none());
    assert_eq!(doc.extensions_used, None);
}

#[test]
fn clear_is_idempotent_in_practice() {
    let mut doc = empty_gltf();
    doc.nodes = Some(vec![jsonld_entity(1), plain_entity()]);
    clear_metadata(&mut doc, Schema::JsonLd);
    let first = format!("{:?}", doc.extensions_used);
    let tag_after_first = get_packet_value(&doc.nodes.as_ref().unwrap()[0].extensions, Schema::JsonLd);
    clear_metadata(&mut doc, Schema::JsonLd);
    let tag_after_second = get_packet_value(&doc.nodes.as_ref().unwrap()[0].extensions, Schema::JsonLd);
    assert_eq!(tag_after_first, None);
    assert_eq!(tag_after_second, None);
    assert_eq!(first, format!("{:?}", doc.extensions_used));
}

#[test]
fn apply_tags_every_entity_of_a_category() {
    let mut doc = empty_gltf();
    doc.images = Some(vec![plain_entity(), jsonld_entity(9), plain_entity()]);
    apply_metadata(&mut doc, Schema::JsonLd, vec![PacketApplied::Images(4)]).unwrap();
    let images = doc.images.as_ref().unwrap();
    for img in images {
        assert_eq!(get_packet_value(&img.extensions, Schema::JsonLd), Some(4));
    }
}

#[test]
fn apply_to_empty_list_declares_no_token() {
    let mut doc = empty_gltf();
    doc.images = Some(Vec::new());
    apply_metadata(&mut doc, Schema::JsonLd, vec![PacketApplied::Images(0)]).unwrap();
    // Nothing was tagged, so nothing was declared.
    assert_eq!(doc.extensions_used, None);
}

#[test]
fn manager_drives_the_structured_schema() {
    let mut doc = empty_gltf();
    doc.extensions = Some(jsonld_root(2));
    let mut manager = KhrXmpJsonLdManager::new(doc);
    manager
        .set_applied_packets(vec![PacketApplied::Asset(1)])
        .unwrap();
    let report = manager.render_report().unwrap();
    assert_eq!(report.entries.len(), 1);
    assert_eq!(report.entries[0].packet_index, 1);
    manager.clear_applied_packets();
    let report = manager.render_report().unwrap();
    assert!(report.entries.is_empty());
    assert_eq!(
        manager.get_gltf().extensions_used,
        Some(vec!["KHR_xmp_json_ld".to_string()])
    );
}
