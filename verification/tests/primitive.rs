use mathtex::primitive::{PrimitiveRegistry, PrimitiveRegistryError};
use mathtex::profile::{PrimitiveKind, PrimitiveOpcode, PrimitiveSpec};

#[test]
fn registry_rejects_duplicate_names() {
    let error = PrimitiveRegistry::from_specs(&[
        PrimitiveSpec {
            name: "input",
            opcode: PrimitiveOpcode(1),
            kind: PrimitiveKind::Resource,
        },
        PrimitiveSpec {
            name: "input",
            opcode: PrimitiveOpcode(2),
            kind: PrimitiveKind::Resource,
        },
    ])
    .expect_err("duplicate names should fail");

    assert_eq!(
        error,
        PrimitiveRegistryError::DuplicateName {
            name: "input".to_string(),
        }
    );
}

#[test]
fn registry_looks_up_registered_primitives() {
    let registry = PrimitiveRegistry::from_specs(&[
        PrimitiveSpec {
            name: "input",
            opcode: PrimitiveOpcode(1),
            kind: PrimitiveKind::Resource,
        },
        PrimitiveSpec {
            name: "relax",
            opcode: PrimitiveOpcode(2),
            kind: PrimitiveKind::Expandable,
        },
    ])
    .expect("distinct names");
    assert_eq!(registry.len(), 2);
    assert!(!registry.is_empty());
    let entry = registry.get("relax").expect("relax");
    assert_eq!(entry.opcode, PrimitiveOpcode(2));
    assert!(registry.get("missing").is_none());
    assert!(PrimitiveRegistry::new().is_empty());
}
