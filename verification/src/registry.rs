//! System Registry & Feature Manifest
//!
//! This module serves as the authoritative source of truth for all capabilities,
//! commands, and architectural pathways in the CrabCamera system.
//!
//! # Core Philosophy
//! This registry acts as a compile-time and runtime map of "What Works" vs "What is Planned".
//! If a feature is listed here with status `Implemented`, it MUST work.
//! If a feature is listed as `Stub` or `Planned`, it is explicitly known to be incomplete.
//!
//! This prevents "Ghost Features" (vaporware) by forcing every feature to be registered
//! with its implementation status.

use vstd::prelude::*;

verus! {

/// Status of a system capability
#[derive(Debug, Clone, Copy, PartialEq, Eq, Structural)]
pub enum FeatureStatus {
    /// Fully implemented, tested, and ready for production
    Implemented,
    /// Implemented but requires more extensive testing
    Beta,
    /// Placeholder structure exists, but logic is incomplete (e.g. returns mock data)
    Stub,
    /// Not started, planned for future release
    Planned,
    /// Deprecated, will be removed
    Deprecated,
}

/// Category of system capability
#[derive(Debug, Clone, Copy, PartialEq, Eq, Structural)]
pub enum FeatureCategory {
    /// Core camera operations (Open, Stream, Capture)
    Core,
    /// Advanced controls (Focus, Exposure, White Balance)
    Controls,
    /// Processing pipeline (Quality, Filters, Analysis)
    Processing,
    /// Recording and Encoding
    Recording,
    /// Integration (Tauri, Events, Permissions)
    Integration,
}

/// Metadata for a system feature
#[derive(Debug, Clone)]
pub struct FeatureManifest {
    /// Unique identifier for the feature
    pub id: &'static str,
    /// Human-readable name
    pub name: &'static str,
    /// Current implementation status
    pub status: FeatureStatus,
    /// Feature category
    pub category: FeatureCategory,
    /// Where the implementation lives (module path)
    pub path: &'static str,
    /// Description of the feature
    pub description: &'static str,
}

/// The contents of a manifest entry, as sequences of characters.
pub struct FeatureEntry {
    /// Identifier.
    pub id: Seq<char>,
    /// Human-readable name.
    pub name: Seq<char>,
    /// Implementation status.
    pub status: FeatureStatus,
    /// Category.
    pub category: FeatureCategory,
    /// Module path of the implementation.
    pub path: Seq<char>,
    /// Description.
    pub description: Seq<char>,
}

impl FeatureManifest {
    /// The entry a manifest record holds.
    pub open spec fn entry(&self) -> FeatureEntry {
        FeatureEntry {
            id: self.id@,
            name: self.name@,
            status: self.status,
            category: self.category,
            path: self.path@,
            description: self.description@,
        }
    }
}

/// Capture and advanced-control features, in registration order.
pub open spec fn capture_and_control_table() -> Seq<FeatureEntry> {
    seq![
        FeatureEntry { id: "capture.single"@, name: "Single Photo Capture"@, status: FeatureStatus::Implemented, category: FeatureCategory::Core, path: "src/commands/capture.rs"@, description: "Capture a single frame from a camera source"@ },
        FeatureEntry { id: "capture.sequence"@, name: "Burst Sequence Capture"@, status: FeatureStatus::Implemented, category: FeatureCategory::Core, path: "src/commands/capture.rs"@, description: "Capture multiple frames in rapid succession"@ },
        FeatureEntry { id: "capture.preview"@, name: "Live Preview Stream"@, status: FeatureStatus::Implemented, category: FeatureCategory::Core, path: "src/commands/capture.rs"@, description: "Continuous frame streaming for UI preview"@ },
        FeatureEntry { id: "capture.consolidated"@, name: "Consolidated Capture"@, status: FeatureStatus::Implemented, category: FeatureCategory::Core, path: "src/commands/capture.rs"@, description: "Unified capture command routing to single/sequence/quality-retry modes"@ },
        FeatureEntry { id: "controls.focus"@, name: "Manual Focus Control"@, status: FeatureStatus::Beta, category: FeatureCategory::Controls, path: "src/platform/mod.rs"@, description: "Manual control of lens focus distance (Platform dependent)"@ },
        FeatureEntry { id: "controls.exposure"@, name: "Exposure Control"@, status: FeatureStatus::Beta, category: FeatureCategory::Controls, path: "src/platform/mod.rs"@, description: "Manual control of exposure time and ISO"@ },
        FeatureEntry { id: "controls.batch"@, name: "Batch Camera Settings"@, status: FeatureStatus::Implemented, category: FeatureCategory::Controls, path: "src/commands/advanced.rs"@, description: "Apply multiple camera settings (focus/exposure/ISO/WB) in a single call"@ },
    ]
}

/// Quality-engine and platform-driver features, in registration order.
pub open spec fn quality_and_platform_table() -> Seq<FeatureEntry> {
    seq![
        FeatureEntry { id: "quality.blur"@, name: "Blur Analysis"@, status: FeatureStatus::Implemented, category: FeatureCategory::Processing, path: "src/quality/blur.rs"@, description: "Laplacian variance analysis for sharpness detection"@ },
        FeatureEntry { id: "quality.exposure"@, name: "Exposure Analysis"@, status: FeatureStatus::Implemented, category: FeatureCategory::Processing, path: "src/quality/exposure.rs"@, description: "Histogram analysis for over/under-exposure detection"@ },
        FeatureEntry { id: "platform.windows"@, name: "Windows MediaFoundation Driver"@, status: FeatureStatus::Implemented, category: FeatureCategory::Core, path: "src/platform/windows/mod.rs"@, description: "Native Windows camera implementation"@ },
        FeatureEntry { id: "platform.macos"@, name: "MacOS AVFoundation Driver"@, status: FeatureStatus::Beta, category: FeatureCategory::Core, path: "src/platform/macos.rs"@, description: "Native MacOS camera implementation (Basic controls)"@ },
        FeatureEntry { id: "platform.linux"@, name: "Linux V4L2 Driver"@, status: FeatureStatus::Beta, category: FeatureCategory::Core, path: "src/platform/linux.rs"@, description: "Native Linux V4L2 camera implementation"@ },
        FeatureEntry { id: "platform.linux.formats"@, name: "Linux V4L2 Format Enumeration"@, status: FeatureStatus::Beta, category: FeatureCategory::Core, path: "src/platform/linux.rs"@, description: "Real format enumeration via dev.enum_formats() with hardcoded fallback"@ },
        FeatureEntry { id: "platform.windows.availability"@, name: "Windows Camera Availability Check"@, status: FeatureStatus::Beta, category: FeatureCategory::Core, path: "src/platform/windows/mod.rs"@, description: "Availability based on is_stream_open(); deeper hardware probe deferred"@ },
    ]
}

/// The complete manifest, in registration order.
pub open spec fn manifest_table() -> Seq<FeatureEntry> {
    capture_and_control_table() + quality_and_platform_table()
}

/// The records of `v` hold the entries of `t`, in order.
pub open spec fn holds_entries(v: Seq<FeatureManifest>, t: Seq<FeatureEntry>) -> bool {
    &&& v.len() == t.len()
    &&& forall|i: int| 0 <= i < v.len() ==> #[trigger] v[i].entry() == t[i]
}

/// The Global System Registry
pub struct SystemRegistry;

impl SystemRegistry {
    /// Get the complete manifest of system features
    pub fn get_manifest() -> (features: Vec<FeatureManifest>)
        ensures
            holds_entries(features@, manifest_table()),
    {
        let mut features = Self::capture_and_control_features();
        let mut rest = Self::quality_and_platform_features();
        features.append(&mut rest);
        proof {
            assert forall|i: int| 0 <= i < features@.len() implies #[trigger] features@[i].entry()
                == manifest_table()[i] by {
                if i >= capture_and_control_table().len() {
                    assert(manifest_table()[i] == quality_and_platform_table()[i
                        - capture_and_control_table().len()]);
                }
            }
        }
        features
    }

    /// Capture and advanced-control feature descriptors.
    pub fn capture_and_control_features() -> (features: Vec<FeatureManifest>)
        ensures
            holds_entries(features@, capture_and_control_table()),
    {
        let features = vec![
        FeatureManifest {
            id: "capture.single",
            name: "Single Photo Capture",
            status: FeatureStatus::Implemented,
            category: FeatureCategory::Core,
            path: "src/commands/capture.rs",
            description: "Capture a single frame from a camera source",
        },
        FeatureManifest {
            id: "capture.sequence",
            name: "Burst Sequence Capture",
            status: FeatureStatus::Implemented,
            category: FeatureCategory::Core,
            path: "src/commands/capture.rs",
            description: "Capture multiple frames in rapid succession",
        },
        FeatureManifest {
            id: "capture.preview",
            name: "Live Preview Stream",
            status: FeatureStatus::Implemented,
            category: FeatureCategory::Core,
            path: "src/commands/capture.rs",
            description: "Continuous frame streaming for UI preview",
        },
        FeatureManifest {
            id: "capture.consolidated",
            name: "Consolidated Capture",
            status: FeatureStatus::Implemented,
            category: FeatureCategory::Core,
            path: "src/commands/capture.rs",
            description: "Unified capture command routing to single/sequence/quality-retry modes",
        },
        FeatureManifest {
            id: "controls.focus",
            name: "Manual Focus Control",
            status: FeatureStatus::Beta,
            category: FeatureCategory::Controls,
            path: "src/platform/mod.rs",
            description: "Manual control of lens focus distance (Platform dependent)",
        },
        FeatureManifest {
            id: "controls.exposure",
            name: "Exposure Control",
            status: FeatureStatus::Beta,
            category: FeatureCategory::Controls,
            path: "src/platform/mod.rs",
            description: "Manual control of exposure time and ISO",
        },
        FeatureManifest {
            id: "controls.batch",
            name: "Batch Camera Settings",
            status: FeatureStatus::Implemented,
            category: FeatureCategory::Controls,
            path: "src/commands/advanced.rs",
            description: "Apply multiple camera settings (focus/exposure/ISO/WB) in a single call",
        },
        ];
        proof {
            assert forall|i: int| 0 <= i < features@.len() implies #[trigger] features@[i].entry()
                == capture_and_control_table()[i] by {}
        }
        features
    }

    /// Quality-engine and platform-driver feature descriptors.
    pub fn quality_and_platform_features() -> (features: Vec<FeatureManifest>)
        ensures
            holds_entries(features@, quality_and_platform_table()),
    {
        let features = vec![
        FeatureManifest {
            id: "quality.blur",
            name: "Blur Analysis",
            status: FeatureStatus::Implemented,
            category: FeatureCategory::Processing,
            path: "src/quality/blur.rs",
            description: "Laplacian variance analysis for sharpness detection",
        },
        FeatureManifest {
            id: "quality.exposure",
            name: "Exposure Analysis",
            status: FeatureStatus::Implemented,
            category: FeatureCategory::Processing,
            path: "src/quality/exposure.rs",
            description: "Histogram analysis for over/under-exposure detection",
        },
        FeatureManifest {
            id: "platform.windows",
            name: "Windows MediaFoundation Driver",
            status: FeatureStatus::Implemented,
            category: FeatureCategory::Core,
            path: "src/platform/windows/mod.rs",
            description: "Native Windows camera implementation",
        },
        FeatureManifest {
            id: "platform.macos",
            name: "MacOS AVFoundation Driver",
            status: FeatureStatus::Beta,
            category: FeatureCategory::Core,
            path: "src/platform/macos.rs",
            description: "Native MacOS camera implementation (Basic controls)",
        },
        FeatureManifest {
            id: "platform.linux",
            name: "Linux V4L2 Driver",
            status: FeatureStatus::Beta,
            category: FeatureCategory::Core,
            path: "src/platform/linux.rs",
            description: "Native Linux V4L2 camera implementation",
        },
        FeatureManifest {
            id: "platform.linux.formats",
            name: "Linux V4L2 Format Enumeration",
            status: FeatureStatus::Beta,
            category: FeatureCategory::Core,
            path: "src/platform/linux.rs",
            description: "Real format enumeration via dev.enum_formats() with hardcoded fallback",
        },
        FeatureManifest {
            id: "platform.windows.availability",
            name: "Windows Camera Availability Check",
            status: FeatureStatus::Beta,
            category: FeatureCategory::Core,
            path: "src/platform/windows/mod.rs",
            description: "Availability based on is_stream_open(); deeper hardware probe deferred",
        },
        ];
        proof {
            assert forall|i: int| 0 <= i < features@.len() implies #[trigger] features@[i].entry()
                == quality_and_platform_table()[i] by {}
        }
        features
    }

    /// Verify that all registered features point to valid code paths.
    ///
    /// The check is made when the crate compiles, by naming the code that
    /// implements each feature; the command handlers it named are not part
    /// of this library, so nothing is named here and nothing happens at run
    /// time.
    pub fn verify_linkage() {
    }
}

// ---------------------------------------------------------------------------
// Laws
// ---------------------------------------------------------------------------

/// The manifest registers at least one feature.
pub proof fn lemma_manifest_nonempty()
    ensures
        manifest_table().len() > 0,
{
}

/// No registered feature is a stub: every feature listed either works or is
/// explicitly planned, beta or deprecated.
pub proof fn lemma_no_stubs()
    ensures
        forall|i: int|
            0 <= i < manifest_table().len() ==> #[trigger] manifest_table()[i].status
                != FeatureStatus::Stub,
{
}

/// A key that tells the registered identifiers apart: their length and their
/// tenth character.
pub open spec fn id_key(id: Seq<char>) -> (nat, char) {
    (id.len(), id[9])
}

/// Every feature identifier is unique within the manifest.
pub proof fn lemma_ids_unique()
    ensures
        forall|i: int, j: int|
            0 <= i < j < manifest_table().len() ==> #[trigger] manifest_table()[i].id
                != #[trigger] manifest_table()[j].id,
{
    reveal_strlit("capture.single");
    reveal_strlit("capture.sequence");
    reveal_strlit("capture.preview");
    reveal_strlit("capture.consolidated");
    reveal_strlit("controls.focus");
    reveal_strlit("controls.exposure");
    reveal_strlit("controls.batch");
    reveal_strlit("quality.blur");
    reveal_strlit("quality.exposure");
    reveal_strlit("platform.windows");
    reveal_strlit("platform.macos");
    reveal_strlit("platform.linux");
    reveal_strlit("platform.linux.formats");
    reveal_strlit("platform.windows.availability");
    let t = manifest_table();
    assert forall|i: int, j: int| 0 <= i < j < t.len() implies #[trigger] t[i].id != #[trigger] t[j].id by {
        assert(id_key(t[i].id) != id_key(t[j].id));
    }
}

} // verus!
