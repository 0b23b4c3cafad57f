use wasm_shim::envoy_ext_auth::semantic_version::{FieldAction, SemanticVersion, WireType};

#[test]
fn a_new_version_is_zero() {
    let version = SemanticVersion::new();
    assert_eq!(version.get_major_number(), 0);
    assert_eq!(version.get_minor_number(), 0);
    assert_eq!(version.get_patch(), 0);
    assert_eq!(version, SemanticVersion::default());
    assert!(version.is_initialized());
}

#[test]
fn each_number_is_set_and_cleared_alone() {
    let mut version = SemanticVersion::new();
    version.set_major_number(1);
    version.set_minor_number(22);
    version.set_patch(u32::MAX);
    assert_eq!(
        version,
        SemanticVersion { major_number: 1, minor_number: 22, patch: u32::MAX }
    );
    assert_eq!(version.get_major_number(), 1);
    assert_eq!(version.get_minor_number(), 22);
    assert_eq!(version.get_patch(), u32::MAX);
    version.clear_minor_number();
    assert_eq!(version, SemanticVersion { major_number: 1, minor_number: 0, patch: u32::MAX });
    version.clear_major_number();
    assert_eq!(version, SemanticVersion { major_number: 0, minor_number: 0, patch: u32::MAX });
    version.set_minor_number(3);
    version.clear_patch();
    assert_eq!(version, SemanticVersion { major_number: 0, minor_number: 3, patch: 0 });
    version.clear();
    assert_eq!(version, SemanticVersion::new());
}

#[test]
fn the_size_counts_the_fields_that_are_not_zero() {
    let version = |major_number, minor_number, patch| SemanticVersion {
        major_number,
        minor_number,
        patch,
    };
    assert_eq!(version(0, 0, 0).compute_size(), 0);
    assert_eq!(version(1, 0, 0).compute_size(), 2);
    assert_eq!(version(1, 2, 3).compute_size(), 6);
    assert_eq!(version(127, 128, 0).compute_size(), 2 + 3);
    assert_eq!(version(0, 16_383, 16_384).compute_size(), 3 + 4);
    assert_eq!(version(0, 0, 2_097_151).compute_size(), 4);
    assert_eq!(version(0, 0, 2_097_152).compute_size(), 5);
    assert_eq!(version(268_435_455, 268_435_456, u32::MAX).compute_size(), 5 + 6 + 6);
}

#[test]
fn the_fields_that_are_not_zero_are_written_in_order() {
    let version = SemanticVersion { major_number: 1, minor_number: 0, patch: 3 };
    assert_eq!(version.fields(), vec![(1, 1), (3, 3)]);
    assert_eq!(SemanticVersion::new().fields(), vec![]);
    let full = SemanticVersion { major_number: 7, minor_number: 8, patch: 9 };
    assert_eq!(full.fields(), vec![(1, 7), (2, 8), (3, 9)]);
}

#[test]
fn a_field_on_the_wire_is_read_refused_or_unknown() {
    let action = SemanticVersion::field_action;
    for number in 1..=3 {
        assert_eq!(action(number, WireType::Varint), FieldAction::ReadNumber);
        for wire_type in [
            WireType::Fixed64,
            WireType::LengthDelimited,
            WireType::StartGroup,
            WireType::EndGroup,
            WireType::Fixed32,
        ] {
            assert_eq!(action(number, wire_type), FieldAction::UnexpectedWireType);
        }
    }
    assert_eq!(action(0, WireType::Varint), FieldAction::Unknown);
    assert_eq!(action(4, WireType::Varint), FieldAction::Unknown);
    assert_eq!(action(4, WireType::Fixed32), FieldAction::Unknown);
}

#[test]
fn a_number_that_was_read_goes_into_its_field() {
    let mut version = SemanticVersion { major_number: 1, minor_number: 2, patch: 3 };
    version.merge_field(2, 20);
    assert_eq!(version, SemanticVersion { major_number: 1, minor_number: 20, patch: 3 });
    version.merge_field(1, 10);
    version.merge_field(3, 30);
    assert_eq!(version, SemanticVersion { major_number: 10, minor_number: 20, patch: 30 });
    version.merge_field(4, 40);
    version.merge_field(0, 40);
    assert_eq!(version, SemanticVersion { major_number: 10, minor_number: 20, patch: 30 });
}
