use vkscaffold::base::BaseConfigBuilder;
use vkscaffold::base::Platform;
use vkscaffold::base::{core_vulkan_extensions, create_validation_layers_requirements, Base};
use vkscaffold::encoding::{make_api_version, to_c_str, to_version};
use vkscaffold::errors::Error;

fn native(s: &str) -> Vec<u8> {
    to_c_str(s).unwrap()
}

#[test]
fn test_base_config() {
    let base_cfg = BaseConfigBuilder::new()
        .build("Test", "Test", "1.0.0", "1.0.0", "1.0.0")
        .unwrap();

    let available = vec![
        native("VK_LAYER_KHRONOS_validation"),
        native("VK_LAYER_KHRONOS_synchronization2"),
    ];
    if let Err(_error_type) = base_cfg.validate_layer_availability(&available) {
        assert!(false, "Layer not found!");
    }
}

#[test]
fn test_base_config_fail() {
    let base_cfg = BaseConfigBuilder::new()
        .validation_layers(vec!["FAIL_LAYER".to_string()])
        .build("Test", "Test", "1.0.0", "1.0.0", "1.0.0")
        .unwrap();

    let available = vec![
        native("VK_LAYER_KHRONOS_validation"),
        native("VK_LAYER_KHRONOS_synchronization2"),
    ];
    if let Err(error) = base_cfg.validate_layer_availability(&available) {
        match error {
            Error::ValidationLayerNotSupported(index) => {
                assert_eq!(index, 0);
                println!("Layer error {}", index);
                return;
            }
            _ => panic!("unexpected error kind"),
        }
    }
    assert!(false, "Layer found!");
}

#[test]
fn test_base_config_fail_multiple() {
    let base_config = BaseConfigBuilder::new()
        .validation_layers(vec![
            "VK_LAYER_KHRONOS_validation".to_string(),
            "VK_LAYER_KHRONOS_synchronization2".to_string(),
            "FAIL_LAYER".to_string(),
        ])
        .build("Test", "Test", "1.0.0", "1.0.0", "1.0.0")
        .unwrap();

    let available = vec![
        native("VK_LAYER_KHRONOS_validation"),
        native("VK_LAYER_KHRONOS_synchronization2"),
    ];
    if let Err(error) = base_config.validate_layer_availability(&available) {
        match error {
            Error::ValidationLayerNotSupported(index) => {
                assert_eq!(index, 2);
                println!("Layer error {}", index);
                return;
            }
            _ => panic!("unexpected error kind"),
        }
    }
    assert!(false, "Layer found!");
}

#[test]
fn test_base_config_values() {
    let validation = "VK_LAYER_KHRONOS_validation";
    let sync = "VK_LAYER_KHRONOS_synchronization2";
    let validation_layers = [validation, sync];
    let base_cfg = BaseConfigBuilder::new()
        .validation_layers(vec![validation.to_string(), sync.to_string()])
        .build("Test1", "Test2", "1.3.0", "1.0.2", "1.0.3")
        .unwrap();

    assert_eq!(base_cfg.validation_layers.len(), 2);

    for (cstr_layer, layer) in base_cfg
        .validation_layers
        .iter()
        .zip(validation_layers.iter())
    {
        let converted_layer = native(layer);
        assert_eq!(*cstr_layer, converted_layer);
    }

    assert_eq!(base_cfg.application_name, native("Test1"));
    assert_eq!(base_cfg.engine_name, native("Test2"));
    assert_eq!(base_cfg.vulkan_api_version, make_api_version(0, 1, 3, 0));
    assert_eq!(base_cfg.application_version, to_version("1.0.2").unwrap());
    assert_eq!(base_cfg.engine_version, to_version("1.0.3").unwrap());

    assert!(base_cfg.vulkan_extensions.is_none());
}

#[test]
fn test_layer_validation_vacuous_on_empty_report() {
    let base_cfg = BaseConfigBuilder::new()
        .validation_layers(vec!["ANY_LAYER".to_string()])
        .build("Test", "Test", "1.0.0", "1.0.0", "1.0.0")
        .unwrap();
    let available: Vec<Vec<u8>> = Vec::new();
    assert!(base_cfg.validate_layer_availability(&available).is_ok());
}

#[test]
fn test_use_khronos_validation() {
    let builder = BaseConfigBuilder::new().use_khronos_validation();
    let cfg = builder
        .build("Test", "Test", "1.0.0", "1.0.0", "1.0.0")
        .unwrap();
    assert_eq!(cfg.validation_layers.len(), 1);
    assert_eq!(
        cfg.validation_layers[0],
        native("VK_LAYER_KHRONOS_validation")
    );
}

#[test]
fn test_build_rejects_embedded_null_name() {
    let r = BaseConfigBuilder::new().build("Te\0st", "Test", "1.0.0", "1.0.0", "1.0.0");
    assert_eq!(r.unwrap_err(), Error::StringEncoding);
}

#[test]
fn test_build_rejects_bad_version() {
    let r = BaseConfigBuilder::new().build("Test", "Test", "1.0.0", "1.0", "1.0.0");
    assert_eq!(r.unwrap_err(), Error::VersionParse);
}

#[test]
fn test_core_vulkan_extensions_per_platform() {
    let exts = core_vulkan_extensions(Platform::Windows);
    assert_eq!(exts.len(), 3);
    assert_eq!(exts[0], native("VK_KHR_surface"));
    assert_eq!(exts[1], native("VK_KHR_win32_surface"));
    assert_eq!(exts[2], native("VK_EXT_debug_utils"));

    let exts = core_vulkan_extensions(Platform::Wayland);
    assert_eq!(exts[1], native("VK_KHR_wayland_surface"));
}

#[test]
fn test_base_new_uses_default_extensions() {
    let cfg = BaseConfigBuilder::new()
        .build("Test", "Test", "1.3.0", "1.0.0", "1.0.0")
        .unwrap();
    let available = vec![native("VK_LAYER_KHRONOS_validation")];
    let base = Base::new(cfg, &available, Platform::Xlib).unwrap();
    assert_eq!(base.vulkan_extensions.len(), 3);
    assert_eq!(base.vulkan_extensions[1], native("VK_KHR_xlib_surface"));
    assert_eq!(base.application_info.api_version, make_api_version(0, 1, 3, 0));
}

#[test]
fn test_base_new_propagates_layer_error() {
    let cfg = BaseConfigBuilder::new()
        .validation_layers(vec!["MISSING".to_string()])
        .build("Test", "Test", "1.0.0", "1.0.0", "1.0.0")
        .unwrap();
    let available = vec![native("VK_LAYER_KHRONOS_validation")];
    let err = Base::new(cfg, &available, Platform::Xlib).unwrap_err();
    assert_eq!(err, Error::ValidationLayerNotSupported(0));
}

#[test]
fn test_create_validation_layers_requirements() {
    let reqs = create_validation_layers_requirements();
    assert_eq!(reqs.len(), 1);
    assert_eq!(reqs[0].0, "VK_LAYER_KHRONOS_validation");
    assert!(reqs[0].1);
}
