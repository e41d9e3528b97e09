use crabcamera::registry::{FeatureCategory, FeatureStatus, SystemRegistry};

#[test]
fn test_registry_integrity() {
    // Ensure manifest generates without error
    let manifest = SystemRegistry::get_manifest();
    assert!(!manifest.is_empty());

    // Verify linkage (compile-time check wrapped in test)
    SystemRegistry::verify_linkage();
}

#[test]
fn test_no_stubs_in_production() {
    let manifest = SystemRegistry::get_manifest();
    for feature in manifest {
        assert_ne!(
            feature.status,
            FeatureStatus::Stub,
            "Feature '{}' is marked as Stub — either implement it or remove it from the manifest",
            feature.name
        );
    }
}

#[test]
fn manifest_is_the_two_groups_in_order() {
    let manifest = SystemRegistry::get_manifest();
    let first = SystemRegistry::capture_and_control_features();
    let second = SystemRegistry::quality_and_platform_features();
    assert_eq!(manifest.len(), 14);
    assert_eq!(first.len(), 7);
    assert_eq!(second.len(), 7);
    for (i, f) in first.iter().chain(second.iter()).enumerate() {
        assert_eq!(manifest[i].id, f.id);
        assert_eq!(manifest[i].path, f.path);
    }
    assert_eq!(manifest[0].id, "capture.single");
    assert_eq!(manifest[0].name, "Single Photo Capture");
    assert_eq!(manifest[0].category, FeatureCategory::Core);
    assert_eq!(manifest[4].status, FeatureStatus::Beta);
    assert_eq!(manifest[7].id, "quality.blur");
    assert_eq!(manifest[7].category, FeatureCategory::Processing);
    assert_eq!(manifest[13].id, "platform.windows.availability");
}

#[test]
fn manifest_ids_are_unique() {
    let manifest = SystemRegistry::get_manifest();
    for i in 0..manifest.len() {
        for j in (i + 1)..manifest.len() {
            assert_ne!(manifest[i].id, manifest[j].id);
        }
    }
}
