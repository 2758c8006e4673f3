//! Capability base: instance-level configuration and negotiation.
//!
//! The base owns the instance-level state of the graphics connection. Here
//! its decision logic is verified: building a configuration from strings and
//! version numbers, validating requested validation layers against what the
//! driver reports, choosing the instance extension list, and the strict
//! order in which the owned handles are destroyed. The driver calls that
//! realize the plan (loading entry points, creating the instance and the
//! debug messenger) live outside the library and hand it plain values.

use vstd::prelude::*;
use vstd::string::StringSliceAdditionalSpecFns;
use vstd::utf8::encode_utf8;

use crate::encoding::contains_bytes;
use crate::encoding::copy_bytes;
use crate::encoding::spec_contains_bytes;
use crate::encoding::spec_encodable;
use crate::encoding::spec_native_string;
use crate::encoding::spec_version_of;
use crate::encoding::to_c_str;
use crate::encoding::to_c_str_array;
use crate::encoding::to_version;
use crate::errors::Error;

verus! {

/// The platform whose surface extension the default instance extension list
/// names.
#[derive(Clone, Copy, Debug, PartialEq, Eq, Structural)]
pub enum Platform {
    /// Win32 surfaces.
    Windows,
    /// Wayland surfaces.
    Wayland,
    /// Xlib surfaces.
    Xlib,
    /// XCB surfaces.
    Xcb,
    /// Metal surfaces.
    Macos,
    /// Android surfaces.
    Android,
}

/// The native name of the platform-specific surface extension.
pub open spec fn spec_platform_surface_extension(platform: Platform) -> Seq<u8> {
    match platform {
        Platform::Windows => spec_native_string("VK_KHR_win32_surface".spec_bytes()),
        Platform::Wayland => spec_native_string("VK_KHR_wayland_surface".spec_bytes()),
        Platform::Xlib => spec_native_string("VK_KHR_xlib_surface".spec_bytes()),
        Platform::Xcb => spec_native_string("VK_KHR_xcb_surface".spec_bytes()),
        Platform::Macos => spec_native_string("VK_EXT_metal_surface".spec_bytes()),
        Platform::Android => spec_native_string("VK_KHR_android_surface".spec_bytes()),
    }
}

/// The default instance extension list: the surface extension, the
/// platform-specific surface extension, and the debug-utils extension.
pub open spec fn spec_core_vulkan_extensions(platform: Platform) -> Seq<Seq<u8>> {
    seq![
        spec_native_string("VK_KHR_surface".spec_bytes()),
        spec_platform_surface_extension(platform),
        spec_native_string("VK_EXT_debug_utils".spec_bytes()),
    ]
}

/// Appends the bytes of a string and a null terminator, without an
/// embedded-null check; for names whose contract callers compare against
/// `spec_native_string` directly.
fn native_string_of(s: &str) -> (r: Vec<u8>)
    ensures
        r@ == spec_native_string(s.spec_bytes()),
{
    let bytes = s.as_bytes();
    let mut out: Vec<u8> = Vec::new();
    let mut i: usize = 0;
    while i < bytes.len()
        invariant
            i <= bytes@.len(),
            bytes@ == s.spec_bytes(),
            out@ == s.spec_bytes().subrange(0, i as int),
        decreases bytes@.len() - i,
    {
        out.push(bytes[i]);
        i = i + 1;
    }
    assert(out@ =~= s.spec_bytes());
    out.push(0);
    out
}

/// The default instance extension list for `platform`: surface, the
/// platform's surface extension, and debug utils, as native strings.
pub fn core_vulkan_extensions(platform: Platform) -> (r: Vec<Vec<u8>>)
    ensures
        r@.len() == 3,
        r@[0]@ == spec_core_vulkan_extensions(platform)[0],
        r@[1]@ == spec_core_vulkan_extensions(platform)[1],
        r@[2]@ == spec_core_vulkan_extensions(platform)[2],
{
    let mut r: Vec<Vec<u8>> = Vec::new();
    r.push(native_string_of("VK_KHR_surface"));
    let platform_extension = match platform {
        Platform::Windows => native_string_of("VK_KHR_win32_surface"),
        Platform::Wayland => native_string_of("VK_KHR_wayland_surface"),
        Platform::Xlib => native_string_of("VK_KHR_xlib_surface"),
        Platform::Xcb => native_string_of("VK_KHR_xcb_surface"),
        Platform::Macos => native_string_of("VK_EXT_metal_surface"),
        Platform::Android => native_string_of("VK_KHR_android_surface"),
    };
    r.push(platform_extension);
    r.push(native_string_of("VK_EXT_debug_utils"));
    r
}

/// Builder for a `BaseConfig`: optional validation layers and optional
/// instance extensions, with names and versions supplied at build time.
#[derive(Debug)]
pub struct BaseConfigBuilder {
    /// Requested validation layers, or none for an empty request.
    pub validation_layers: Option<Vec<String>>,
    /// Requested instance extensions, or none for the platform default.
    pub vulkan_extensions: Option<Vec<String>>,
}

impl BaseConfigBuilder {
    /// The sequence of layer names the builder will encode: the requested
    /// list, or empty when none was given.
    pub open spec fn spec_layers_src(&self) -> Seq<String> {
        match self.validation_layers {
            Option::Some(l) => l@,
            Option::None => Seq::empty(),
        }
    }

    /// The first configuration error `build` reports, if any, in the order
    /// the fields are converted: names, layers, versions, extensions.
    pub open spec fn spec_build_error(
        &self,
        application_name: &str,
        engine_name: &str,
        vulkan_api_version: &str,
        application_version: &str,
        engine_version: &str,
    ) -> Option<Error> {
        if !spec_encodable(application_name.spec_bytes()) {
            Option::Some(Error::StringEncoding)
        } else if !spec_encodable(engine_name.spec_bytes()) {
            Option::Some(Error::StringEncoding)
        } else if exists|i: int|
            0 <= i < self.spec_layers_src().len() && !spec_encodable(
                #[trigger] encode_utf8(self.spec_layers_src()[i]@),
            ) {
            Option::Some(Error::StringEncoding)
        } else if spec_version_of(application_version.spec_bytes()) is None {
            Option::Some(Error::VersionParse)
        } else if spec_version_of(engine_version.spec_bytes()) is None {
            Option::Some(Error::VersionParse)
        } else if spec_version_of(vulkan_api_version.spec_bytes()) is None {
            Option::Some(Error::VersionParse)
        } else if self.vulkan_extensions is Some && exists|i: int|
            0 <= i < self.vulkan_extensions->0@.len() && !spec_encodable(
                #[trigger] encode_utf8(self.vulkan_extensions->0@[i]@),
            ) {
            Option::Some(Error::StringEncoding)
        } else {
            Option::None
        }
    }

    /// A builder requesting nothing: no layers, default extensions.
    pub fn new() -> (r: Self)
        ensures
            r.validation_layers is None,
            r.vulkan_extensions is None,
    {
        Self { validation_layers: None, vulkan_extensions: None }
    }

    /// Requests the given validation layers.
    pub fn validation_layers(self, layers: Vec<String>) -> (r: Self)
        ensures
            r.validation_layers == Some(layers),
            r.vulkan_extensions == self.vulkan_extensions,
    {
        Self { validation_layers: Some(layers), vulkan_extensions: self.vulkan_extensions }
    }

    /// Requests the Khronos validation layer alone.
    pub fn use_khronos_validation(self) -> (r: Self)
        ensures
            r.validation_layers is Some,
            r.validation_layers->0@.len() == 1,
            r.validation_layers->0@[0]@ == "VK_LAYER_KHRONOS_validation"@,
            r.vulkan_extensions == self.vulkan_extensions,
    {
        let mut layers: Vec<String> = Vec::new();
        layers.push("VK_LAYER_KHRONOS_validation".to_owned());
        Self { validation_layers: Some(layers), vulkan_extensions: self.vulkan_extensions }
    }

    /// Keeps the platform-default instance extension list.
    pub fn use_core_vulkan_extensions(self) -> (r: Self)
        ensures
            r == self,
    {
        self
    }

    /// Requests the given instance extensions instead of the default list.
    pub fn vulkan_extensions(self, extensions: Vec<String>) -> (r: Self)
        ensures
            r.validation_layers == self.validation_layers,
            r.vulkan_extensions == Some(extensions),
    {
        Self { validation_layers: self.validation_layers, vulkan_extensions: Some(extensions) }
    }

    /// Converts the builder and the given names and versions into a
    /// `BaseConfig`: names and layer names become native strings, versions
    /// are parsed and packed. Fails with the first conversion error, per
    /// `spec_build_error`.
    pub fn build(
        self,
        application_name: &str,
        engine_name: &str,
        vulkan_api_version: &str,
        application_version: &str,
        engine_version: &str,
    ) -> (r: Result<BaseConfig, Error>)
        ensures
            match r {
                Result::Ok(cfg) => {
                    &&& self.spec_build_error(
                        application_name,
                        engine_name,
                        vulkan_api_version,
                        application_version,
                        engine_version,
                    ) is None
                    &&& cfg.application_name@ == spec_native_string(application_name.spec_bytes())
                    &&& cfg.engine_name@ == spec_native_string(engine_name.spec_bytes())
                    &&& cfg.validation_layers@.len() == self.spec_layers_src().len()
                    &&& forall|i: int|
                        0 <= i < self.spec_layers_src().len()
                            ==> (#[trigger] cfg.validation_layers@[i])@ == spec_native_string(
                            encode_utf8(self.spec_layers_src()[i]@),
                        )
                    &&& spec_version_of(application_version.spec_bytes()) == Some(
                        cfg.application_version,
                    )
                    &&& spec_version_of(engine_version.spec_bytes()) == Some(cfg.engine_version)
                    &&& spec_version_of(vulkan_api_version.spec_bytes()) == Some(
                        cfg.vulkan_api_version,
                    )
                    &&& match self.vulkan_extensions {
                        Option::Some(exts) => {
                            &&& cfg.vulkan_extensions is Some
                            &&& cfg.vulkan_extensions->0@.len() == exts@.len()
                            &&& forall|i: int|
                                0 <= i < exts@.len()
                                    ==> (#[trigger] cfg.vulkan_extensions->0@[i])@
                                    == spec_native_string(encode_utf8(exts@[i]@))
                        },
                        Option::None => cfg.vulkan_extensions is None,
                    }
                },
                Result::Err(e) => Some(e) == self.spec_build_error(
                    application_name,
                    engine_name,
                    vulkan_api_version,
                    application_version,
                    engine_version,
                ),
            },
    {
        let application_name_c = match to_c_str(application_name) {
            Ok(v) => v,
            Err(e) => {
                return Err(e);
            },
        };
        let engine_name_c = match to_c_str(engine_name) {
            Ok(v) => v,
            Err(e) => {
                return Err(e);
            },
        };
        let layers_src: Vec<String> = match self.validation_layers {
            Some(l) => l,
            None => Vec::new(),
        };
        proof {
            assert(layers_src@ =~= self.spec_layers_src());
        }
        let validation_layers = match to_c_str_array(&layers_src) {
            Ok(v) => v,
            Err(e) => {
                return Err(e);
            },
        };
        let application_version_packed = match to_version(application_version) {
            Ok(v) => v,
            Err(e) => {
                return Err(e);
            },
        };
        let engine_version_packed = match to_version(engine_version) {
            Ok(v) => v,
            Err(e) => {
                return Err(e);
            },
        };
        let api_version_packed = match to_version(vulkan_api_version) {
            Ok(v) => v,
            Err(e) => {
                return Err(e);
            },
        };
        let vulkan_extensions = match self.vulkan_extensions {
            Some(exts) => match to_c_str_array(&exts) {
                Ok(v) => Some(v),
                Err(e) => {
                    return Err(e);
                },
            },
            None => None,
        };
        Ok(
            BaseConfig {
                application_name: application_name_c,
                engine_name: engine_name_c,
                validation_layers,
                application_version: application_version_packed,
                engine_version: engine_version_packed,
                vulkan_api_version: api_version_packed,
                vulkan_extensions,
            },
        )
    }
}

/// Instance-level configuration, with names and layer/extension names in
/// native (null-terminated) form and versions packed.
#[derive(Debug)]
pub struct BaseConfig {
    /// Application name as a native string.
    pub application_name: Vec<u8>,
    /// Engine name as a native string.
    pub engine_name: Vec<u8>,
    /// Requested validation layers as native strings, in request order.
    pub validation_layers: Vec<Vec<u8>>,
    /// Packed application version.
    pub application_version: u32,
    /// Packed engine version.
    pub engine_version: u32,
    /// Packed API version.
    pub vulkan_api_version: u32,
    /// Requested instance extensions, or none for the platform default.
    pub vulkan_extensions: Option<Vec<Vec<u8>>>,
}

/// The index of the first requested layer at or after `from` that is not in
/// the available set, or the request length if all are available.
pub open spec fn spec_first_missing_layer(
    requested: Seq<Vec<u8>>,
    available: Seq<Vec<u8>>,
    from: int,
) -> int
    decreases requested.len() - from,
{
    if from < 0 || from >= requested.len() {
        requested.len() as int
    } else if !spec_contains_bytes(available, requested[from]@) {
        from
    } else {
        spec_first_missing_layer(requested, available, from + 1)
    }
}

impl BaseConfig {
    /// Validates the requested validation layers against the layer names the
    /// driver reports.
    ///
    /// When the driver reports no layers at all, the request is treated as
    /// trivially satisfied. Otherwise, fails with the index of the first
    /// requested layer that the driver does not report, if any.
    pub fn validate_layer_availability(&self, available_layers: &Vec<Vec<u8>>) -> (r: Result<
        (),
        Error,
    >)
        ensures
            available_layers@.len() == 0 ==> r == Result::<(), Error>::Ok(()),
            available_layers@.len() > 0 ==> match r {
                Result::Ok(u) => spec_first_missing_layer(
                    self.validation_layers@,
                    available_layers@,
                    0,
                ) == self.validation_layers@.len(),
                Result::Err(e) => {
                    &&& spec_first_missing_layer(self.validation_layers@, available_layers@, 0)
                        < self.validation_layers@.len()
                    &&& e == Error::ValidationLayerNotSupported(
                        spec_first_missing_layer(
                            self.validation_layers@,
                            available_layers@,
                            0,
                        ) as usize,
                    )
                },
            },
    {
        if available_layers.len() == 0 {
            return Ok(());
        }
        let mut i: usize = 0;
        while i < self.validation_layers.len()
            invariant
                available_layers@.len() > 0,
                i <= self.validation_layers@.len(),
                spec_first_missing_layer(self.validation_layers@, available_layers@, 0)
                    == spec_first_missing_layer(self.validation_layers@, available_layers@, i as int),
            decreases self.validation_layers@.len() - i,
        {
            if !contains_bytes(available_layers, &self.validation_layers[i]) {
                return Err(Error::ValidationLayerNotSupported(i));
            }
            i = i + 1;
        }
        Ok(())
    }

    /// Renders the configuration's name and version fields as an
    /// application-info record.
    pub fn to_application_info(&self) -> (r: ApplicationInfo)
        ensures
            r.application_name@ == self.application_name@,
            r.application_version == self.application_version,
            r.engine_name@ == self.engine_name@,
            r.engine_version == self.engine_version,
            r.api_version == self.vulkan_api_version,
    {
        ApplicationInfo {
            application_name: copy_bytes(&self.application_name),
            application_version: self.application_version,
            engine_name: copy_bytes(&self.engine_name),
            engine_version: self.engine_version,
            api_version: self.vulkan_api_version,
        }
    }
}

/// The application-info record handed to instance creation: names as native
/// strings and packed versions.
#[derive(Debug)]
pub struct ApplicationInfo {
    /// Application name as a native string.
    pub application_name: Vec<u8>,
    /// Packed application version.
    pub application_version: u32,
    /// Engine name as a native string.
    pub engine_name: Vec<u8>,
    /// Packed engine version.
    pub engine_version: u32,
    /// Packed API version.
    pub api_version: u32,
}

/// One step of tearing down the negotiated context, in the order the owned
/// native handles must be released.
#[derive(Clone, Copy, Debug, PartialEq, Eq, Structural)]
pub enum DestroyAction {
    /// Destroy the logical device.
    DestroyDevice,
    /// Destroy the presentation surface.
    DestroySurface,
    /// Destroy the debug messenger.
    DestroyMessenger,
    /// Destroy the instance.
    DestroyInstance,
}

/// The capability base: the validated instance-level plan, standing for the
/// instance and debug messenger it owns.
#[derive(Debug)]
pub struct Base {
    /// The application info the instance was created with.
    pub application_info: ApplicationInfo,
    /// The validation layers the instance was created with.
    pub validation_layers: Vec<Vec<u8>>,
    /// The instance extensions the instance was created with.
    pub vulkan_extensions: Vec<Vec<u8>>,
}

impl Base {
    /// Validates the configuration against the driver-reported layers and
    /// fixes the instance-creation plan: the requested extension list, or
    /// the platform default when none was requested.
    ///
    /// Fails exactly as `validate_layer_availability` does, propagating its
    /// error.
    pub fn new(config: BaseConfig, available_layers: &Vec<Vec<u8>>, platform: Platform) -> (r:
        Result<Base, Error>)
        ensures
            match r {
                Result::Ok(base) => {
                    &&& available_layers@.len() > 0 ==> spec_first_missing_layer(
                        config.validation_layers@,
                        available_layers@,
                        0,
                    ) == config.validation_layers@.len()
                    &&& base.application_info.application_name@ == config.application_name@
                    &&& base.application_info.engine_name@ == config.engine_name@
                    &&& base.application_info.application_version == config.application_version
                    &&& base.application_info.engine_version == config.engine_version
                    &&& base.application_info.api_version == config.vulkan_api_version
                    &&& base.validation_layers@.len() == config.validation_layers@.len()
                    &&& forall|i: int|
                        0 <= i < config.validation_layers@.len()
                            ==> (#[trigger] base.validation_layers@[i])@
                            == config.validation_layers@[i]@
                    &&& match config.vulkan_extensions {
                        Option::Some(exts) => base.vulkan_extensions == exts,
                        Option::None => {
                            &&& base.vulkan_extensions@.len() == 3
                            &&& base.vulkan_extensions@[0]@ == spec_core_vulkan_extensions(
                                platform,
                            )[0]
                            &&& base.vulkan_extensions@[1]@ == spec_core_vulkan_extensions(
                                platform,
                            )[1]
                            &&& base.vulkan_extensions@[2]@ == spec_core_vulkan_extensions(
                                platform,
                            )[2]
                        },
                    }
                },
                Result::Err(e) => {
                    &&& available_layers@.len() > 0
                    &&& spec_first_missing_layer(config.validation_layers@, available_layers@, 0)
                        < config.validation_layers@.len()
                    &&& e == Error::ValidationLayerNotSupported(
                        spec_first_missing_layer(
                            config.validation_layers@,
                            available_layers@,
                            0,
                        ) as usize,
                    )
                },
            },
    {
        match config.validate_layer_availability(available_layers) {
            Ok(u) => {},
            Err(e) => {
                return Err(e);
            },
        }
        let application_info = config.to_application_info();
        let vulkan_extensions = match config.vulkan_extensions {
            Some(exts) => exts,
            None => core_vulkan_extensions(platform),
        };
        Ok(
            Base {
                application_info,
                validation_layers: config.validation_layers,
                vulkan_extensions,
            },
        )
    }

    /// The order in which the base's own handles are released: the debug
    /// messenger strictly before the instance.
    pub fn teardown_actions(&self) -> (r: Vec<DestroyAction>)
        ensures
            r@ =~= seq![DestroyAction::DestroyMessenger, DestroyAction::DestroyInstance],
    {
        let mut r: Vec<DestroyAction> = Vec::new();
        r.push(DestroyAction::DestroyMessenger);
        r.push(DestroyAction::DestroyInstance);
        r
    }
}

/// The standard validation-layer requirement: the Khronos validation layer,
/// marked as enabled.
pub fn create_validation_layers_requirements() -> (r: Vec<(String, bool)>)
    ensures
        r@.len() == 1,
        r@[0].0@ == "VK_LAYER_KHRONOS_validation"@,
        r@[0].1 == true,
{
    let mut r: Vec<(String, bool)> = Vec::new();
    r.push(("VK_LAYER_KHRONOS_validation".to_owned(), true));
    r
}

/// All layers requested from an available set that covers them validate
/// successfully: when every requested layer is contained in the available
/// list, no missing index exists.
pub proof fn lemma_layer_validation_subset(
    requested: Seq<Vec<u8>>,
    available: Seq<Vec<u8>>,
    from: int,
)
    requires
        0 <= from <= requested.len(),
        forall|i: int|
            from <= i < requested.len() ==> spec_contains_bytes(
                available,
                (#[trigger] requested[i])@,
            ),
    ensures
        spec_first_missing_layer(requested, available, from) == requested.len(),
    decreases requested.len() - from,
{
    if from < requested.len() {
        lemma_layer_validation_subset(requested, available, from + 1);
    }
}

/// Validation reports the first missing requested layer: if every layer
/// before index `i` is available and the layer at `i` is not, the first
/// missing index is exactly `i`.
pub proof fn lemma_layer_validation_first_missing(
    requested: Seq<Vec<u8>>,
    available: Seq<Vec<u8>>,
    from: int,
    i: int,
)
    requires
        0 <= from <= i < requested.len(),
        forall|j: int|
            from <= j < i ==> spec_contains_bytes(available, (#[trigger] requested[j])@),
        !spec_contains_bytes(available, requested[i]@),
    ensures
        spec_first_missing_layer(requested, available, from) == i,
    decreases i - from,
{
    if from < i {
        lemma_layer_validation_first_missing(requested, available, from + 1, i);
    }
}

} // verus!
