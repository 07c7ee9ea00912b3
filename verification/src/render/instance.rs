use vstd::prelude::*;

use crate::error::{NeuclidioError, RenderError};
use crate::render::windowing::device_extension_support::{contains_name, has_name};

verus! {

/// A Vulkan version, `major.minor.patch`.
#[derive(Debug, Clone, Copy, PartialEq, Eq, Structural)]
pub struct VulkanVersion {
    pub major: u32,
    pub minor: u32,
    pub patch: u32,
}

/// Whether version `a` comes before version `b`: by major, then minor, then patch.
pub open spec fn version_before(a: VulkanVersion, b: VulkanVersion) -> bool {
    ||| a.major < b.major
    ||| a.major == b.major && a.minor < b.minor
    ||| a.major == b.major && a.minor == b.minor && a.patch < b.patch
}

fn is_before(a: VulkanVersion, b: VulkanVersion) -> (r: bool)
    ensures
        r == version_before(a, b),
{
    a.major < b.major || (a.major == b.major && a.minor < b.minor) || (a.major == b.major && a.minor == b.minor
        && a.patch < b.patch)
}

/// The Vulkan version from which the macOS SDK asks for portability enumeration: 1.3.216.
pub open spec fn portability_macos_version() -> VulkanVersion {
    VulkanVersion { major: 1, minor: 3, patch: 216 }
}

/// The Vulkan version whose core holds synchronization2: 1.3.0.
pub open spec fn synchronization2_core_version() -> VulkanVersion {
    VulkanVersion { major: 1, minor: 3, patch: 0 }
}

/// An instance extension that the engine enables besides those the window system needs.
#[derive(Debug, Clone, Copy, PartialEq, Eq, Structural)]
pub enum InstanceExtension {
    GetPhysicalDeviceProperties2,
    PortabilityEnumeration,
    Synchronization2,
    DebugUtils,
}

/// How the Vulkan instance is created.
pub struct InstanceSetup {
    /// Whether the validation layer is enabled (it is then the only layer).
    pub validation_layer: bool,
    /// The extensions enabled after those the window system needs, in order.
    pub extensions: Vec<InstanceExtension>,
    /// Whether the instance enumerates portability devices.
    pub enumerate_portability: bool,
}

/// Whether the instance needs the portability extensions: on macOS from Vulkan 1.3.216.
pub open spec fn needs_portability(macos: bool, vulkan_version: VulkanVersion) -> bool {
    macos && !version_before(vulkan_version, portability_macos_version())
}

/// The extensions the engine adds: the portability ones where they are needed,
/// synchronization2 where the core lacks it and the caller falls back on the extension,
/// and debug utils with validation.
pub open spec fn extra_instance_extensions(
    macos: bool,
    vulkan_version: VulkanVersion,
    synchronization2_fallback: bool,
    validation_enabled: bool,
) -> Seq<InstanceExtension> {
    (if needs_portability(macos, vulkan_version) {
        seq![InstanceExtension::GetPhysicalDeviceProperties2, InstanceExtension::PortabilityEnumeration]
    } else {
        Seq::empty()
    }) + (if synchronization2_fallback && version_before(vulkan_version, synchronization2_core_version()) {
        seq![InstanceExtension::Synchronization2]
    } else {
        Seq::empty()
    }) + (if validation_enabled {
        seq![InstanceExtension::DebugUtils]
    } else {
        Seq::empty()
    })
}

/// Each extra extension is asked for on its own condition, whatever the others: debug
/// utils exactly when validation is on; synchronization2 exactly when the caller falls
/// back on it and the Vulkan version is below 1.3.0; the two portability extensions
/// exactly on macOS from Vulkan 1.3.216 on. None is asked for twice.
pub proof fn law_each_extension_on_its_own_condition(
    macos: bool,
    vulkan_version: VulkanVersion,
    synchronization2_fallback: bool,
    validation_enabled: bool,
)
    ensures
        ({
            let extensions = extra_instance_extensions(
                macos,
                vulkan_version,
                synchronization2_fallback,
                validation_enabled,
            );
            let below_1_3 = vulkan_version.major < 1 || (vulkan_version.major == 1 && vulkan_version.minor < 3);
            let from_1_3_216 = vulkan_version.major > 1 || (vulkan_version.major == 1 && (vulkan_version.minor > 3
                || (vulkan_version.minor == 3 && vulkan_version.patch >= 216)));
            &&& extensions.contains(InstanceExtension::DebugUtils) <==> validation_enabled
            &&& extensions.contains(InstanceExtension::Synchronization2) <==> synchronization2_fallback
                && below_1_3
            &&& extensions.contains(InstanceExtension::PortabilityEnumeration) <==> macos && from_1_3_216
            &&& extensions.contains(InstanceExtension::GetPhysicalDeviceProperties2) <==> macos && from_1_3_216
            &&& extensions.no_duplicates()
        }),
{
    let a: Seq<InstanceExtension> = if needs_portability(macos, vulkan_version) {
        seq![InstanceExtension::GetPhysicalDeviceProperties2, InstanceExtension::PortabilityEnumeration]
    } else {
        Seq::empty()
    };
    let b: Seq<InstanceExtension> = if synchronization2_fallback && version_before(vulkan_version, synchronization2_core_version()) {
        seq![InstanceExtension::Synchronization2]
    } else {
        Seq::empty()
    };
    let c: Seq<InstanceExtension> = if validation_enabled {
        seq![InstanceExtension::DebugUtils]
    } else {
        Seq::empty()
    };
    let e = extra_instance_extensions(macos, vulkan_version, synchronization2_fallback, validation_enabled);
    assert(e == a + b + c);
    assert forall|x: InstanceExtension| #[trigger] e.contains(x) <==> (a.contains(x) || b.contains(x) || c.contains(x)) by {
        if e.contains(x) {
            let i = choose|i: int| 0 <= i < e.len() && e[i] == x;
            if i < a.len() {
                assert(a[i] == x);
            } else if i < a.len() + b.len() {
                assert(b[i - a.len()] == x);
            } else {
                assert(c[i - a.len() - b.len()] == x);
            }
        }
        if a.contains(x) {
            let i = choose|i: int| 0 <= i < a.len() && a[i] == x;
            assert(e[i] == x);
        }
        if b.contains(x) {
            let i = choose|i: int| 0 <= i < b.len() && b[i] == x;
            assert(e[a.len() + i] == x);
        }
        if c.contains(x) {
            let i = choose|i: int| 0 <= i < c.len() && c[i] == x;
            assert(e[a.len() + b.len() + i] == x);
        }
    }
    if a.len() > 0 {
        assert(a[0] == InstanceExtension::GetPhysicalDeviceProperties2);
        assert(a[1] == InstanceExtension::PortabilityEnumeration);
    }
    if b.len() > 0 {
        assert(b[0] == InstanceExtension::Synchronization2);
    }
    if c.len() > 0 {
        assert(c[0] == InstanceExtension::DebugUtils);
    }
    assert forall|i: int, j: int| 0 <= i < e.len() && 0 <= j < e.len() && i != j implies e[i] != e[j] by {
        if a.len() > 0 {
            assert(a[0] != a[1]);
        }
    }
}

/// Decides how to create the Vulkan instance, from the platform, the Vulkan version,
/// whether synchronization2 is asked for as an extension where the core lacks it (the
/// render engine does so; the window manager does not), whether validation is on, and
/// the names of the available layers; fails with `MissingValidationLayer` when
/// validation is on and its layer is not available.
pub fn instance_setup(
    macos: bool,
    vulkan_version: VulkanVersion,
    synchronization2_fallback: bool,
    validation_enabled: bool,
    available_layers: &[Vec<u8>],
    validation_layer: &Vec<u8>,
) -> (r: Result<InstanceSetup, NeuclidioError>)
    ensures
        r is Err <==> validation_enabled && !has_name(available_layers@, validation_layer@),
        r is Err ==> r == Err::<InstanceSetup, NeuclidioError>(
            NeuclidioError::RenderError(RenderError::MissingValidationLayer),
        ),
        r is Ok ==> {
            &&& r->Ok_0.validation_layer == validation_enabled
            &&& r->Ok_0.extensions@ == extra_instance_extensions(macos, vulkan_version, synchronization2_fallback, validation_enabled)
            &&& r->Ok_0.enumerate_portability == needs_portability(macos, vulkan_version)
        },
{
    if validation_enabled && !contains_name(available_layers, validation_layer) {
        return Err(NeuclidioError::RenderError(RenderError::MissingValidationLayer));
    }
    let mut extensions: Vec<InstanceExtension> = Vec::new();
    let portability_version = VulkanVersion { major: 1, minor: 3, patch: 216 };
    let enumerate_portability = macos && !is_before(vulkan_version, portability_version);
    if enumerate_portability {
        extensions.push(InstanceExtension::GetPhysicalDeviceProperties2);
        extensions.push(InstanceExtension::PortabilityEnumeration);
    }
    let synchronization2_version = VulkanVersion { major: 1, minor: 3, patch: 0 };
    if synchronization2_fallback && is_before(vulkan_version, synchronization2_version) {
        extensions.push(InstanceExtension::Synchronization2);
    }
    if validation_enabled {
        extensions.push(InstanceExtension::DebugUtils);
    }
    assert(extensions@ =~= extra_instance_extensions(macos, vulkan_version, synchronization2_fallback, validation_enabled));
    Ok(InstanceSetup { validation_layer: validation_enabled, extensions, enumerate_portability })
}

} // verus!
