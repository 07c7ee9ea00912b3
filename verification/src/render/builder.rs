use vstd::prelude::*;
use vstd::string::StringSliceAdditionalSpecFns;
use vstd::utf8::encode_utf8;

verus! {

/// The Vulkan API version the engine asks for.
pub const API_VERSION_MAJOR: u32 = 1;

/// The Vulkan API minor version the engine asks for.
pub const API_VERSION_MINOR: u32 = 3;

/// A Vulkan version number: major in bits 22 and up, minor in bits 12 to 21, patch in
/// the low 12 bits, each shifted into place and or-ed together (bits shifted past 32 are lost).
pub open spec fn version_number(major: u32, minor: u32, patch: u32) -> u32 {
    (major << 22u32) | (minor << 12u32) | patch
}

/// Packs a version with `vulkanalia::vk::make_version`, which computes `version_number`.
#[verifier::external_body]
fn make_version(major: u32, minor: u32, patch: u32) -> (r: u32)
    ensures
        r == version_number(major, minor, patch),
{
    vulkanalia::vk::make_version(major, minor, patch)
}

/// The bytes of a string followed by a terminating NUL.
fn nul_terminated(s: &str) -> (r: Vec<u8>)
    ensures
        r@ == s.spec_bytes().push(0u8),
{
    let bytes = s.as_bytes();
    let mut r: Vec<u8> = Vec::new();
    let mut i: usize = 0;
    while i < bytes.len()
        invariant
            bytes@ == s.spec_bytes(),
            i <= bytes@.len(),
            r@ == bytes@.subrange(0, i as int),
        decreases bytes@.len() - i,
    {
        r.push(bytes[i]);
        i = i + 1;
        assert(r@ =~= bytes@.subrange(0, i as int));
    }
    assert(r@ =~= bytes@);
    r.push(0);
    r
}

/// What the engine tells Vulkan about the application and itself.
pub struct ApplicationInfo {
    /// The application name, NUL-terminated.
    pub application_name: Vec<u8>,
    pub application_version: u32,
    /// The engine name, NUL-terminated.
    pub engine_name: Vec<u8>,
    pub engine_version: u32,
    pub api_version: u32,
}

/// Configures the render engine: the application's name and version.
pub struct RenderEngineBuilder {
    pub application_name: String,
    pub application_version_major: u32,
    pub application_version_minor: u32,
    pub application_version_patch: u32,
}

impl Default for RenderEngineBuilder {
    fn default() -> (r: Self)
        ensures
            r.application_name@ == "Neuclidio Example"@,
            r.application_version_major == 1,
            r.application_version_minor == 0,
            r.application_version_patch == 0,
    {
        RenderEngineBuilder {
            application_name: "Neuclidio Example".to_owned(),
            application_version_major: 1,
            application_version_minor: 0,
            application_version_patch: 0,
        }
    }
}

impl RenderEngineBuilder {
    /// The default configuration: "Neuclidio Example", version 1.0.0.
    pub fn new() -> (r: Self)
        ensures
            r.application_name@ == "Neuclidio Example"@,
            r.application_version_major == 1,
            r.application_version_minor == 0,
            r.application_version_patch == 0,
    {
        Self::default()
    }

    /// The same configuration with another application name.
    pub fn with_application_name(self, name: String) -> (r: Self)
        ensures
            r.application_name@ == name@,
            r.application_version_major == self.application_version_major,
            r.application_version_minor == self.application_version_minor,
            r.application_version_patch == self.application_version_patch,
    {
        let mut builder = self;
        builder.application_name = name;
        builder
    }

    /// The same configuration with another application version.
    pub fn with_application_version(self, version_major: u32, version_minor: u32, version_patch: u32) -> (r: Self)
        ensures
            r.application_name@ == self.application_name@,
            r.application_version_major == version_major,
            r.application_version_minor == version_minor,
            r.application_version_patch == version_patch,
    {
        let mut builder = self;
        builder.application_version_major = version_major;
        builder.application_version_minor = version_minor;
        builder.application_version_patch = version_patch;
        builder
    }

    /// The application info for Vulkan: this configuration's name and version, the
    /// engine "Neuclidio" at the given version, and API version 1.3.0.
    pub fn application_info(&self, engine_version_major: u32, engine_version_minor: u32, engine_version_patch: u32) -> (r: ApplicationInfo)
        ensures
            r.application_name@ == encode_utf8(self.application_name@).push(0u8),
            r.application_version == version_number(
                self.application_version_major,
                self.application_version_minor,
                self.application_version_patch,
            ),
            r.engine_name@ == encode_utf8("Neuclidio"@).push(0u8),
            r.engine_version == version_number(engine_version_major, engine_version_minor, engine_version_patch),
            r.api_version == version_number(API_VERSION_MAJOR, API_VERSION_MINOR, 0),
    {
        ApplicationInfo {
            application_name: nul_terminated(self.application_name.as_str()),
            application_version: make_version(
                self.application_version_major,
                self.application_version_minor,
                self.application_version_patch,
            ),
            engine_name: nul_terminated("Neuclidio"),
            engine_version: make_version(engine_version_major, engine_version_minor, engine_version_patch),
            api_version: make_version(API_VERSION_MAJOR, API_VERSION_MINOR, 0),
        }
    }
}

} // verus!
