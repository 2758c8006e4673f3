use vkscaffold::base::{BaseConfigBuilder, Base, DestroyAction, Platform};
use vkscaffold::context::{
    create_physical_device_extension_requirements, Context, ContextConfigurator, DeviceFeatures,
    DeviceProperties, PhysicalDeviceCandidate, QueueFamilyDesc, DEVICE_TYPE_DISCRETE_GPU,
};
use vkscaffold::encoding::to_c_str;
use vkscaffold::log::{LevelFilter, Logger};
use vkscaffold::queue::{
    QueueHandles, COMPUTE, GRAPHICS, PRESENT, QUEUE_FLAG_COMPUTE, QUEUE_FLAG_GRAPHICS,
    QUEUE_FLAG_TRANSFER, TRANSFER,
};
use vkscaffold::surface::{
    DisplayHandle, SurfaceCapabilities, SurfaceFormat, SurfaceProperties, WindowHandle,
};

fn native(s: &str) -> Vec<u8> {
    to_c_str(s).unwrap()
}

fn mock_surface_properties(format_count: usize, present_mode_count: usize) -> SurfaceProperties {
    let mut formats = Vec::new();
    for i in 0..format_count {
        formats.push(SurfaceFormat {
            format: 44 + i as u32,
            color_space: 0,
        });
    }
    let mut present_modes = Vec::new();
    for i in 0..present_mode_count {
        present_modes.push(i as u32);
    }
    SurfaceProperties {
        surface_capabilities: SurfaceCapabilities {
            min_image_count: 2,
            max_image_count: 8,
            current_width: 800,
            current_height: 600,
        },
        formats,
        present_modes,
    }
}

fn mock_candidate(device: u64, device_type: u32, extensions: Vec<Vec<u8>>) -> PhysicalDeviceCandidate {
    PhysicalDeviceCandidate {
        device,
        properties: DeviceProperties { device_type },
        features: DeviceFeatures {
            geometry_shader: true,
        },
        extensions,
        surface_properties: mock_surface_properties(2, 2),
    }
}

fn test_configurator() -> ContextConfigurator<
    vkscaffold::context::DefaultDeviceMapper,
    vkscaffold::context::DefaultQueueMapper,
> {
    ContextConfigurator::new(
        WindowHandle::Xlib,
        DisplayHandle::Xlib {
            display_present: true,
        },
        &vec!["VK_KHR_swapchain".to_string()],
    )
    .unwrap()
}

#[test]
fn test_create_physical_device_extension_requirements() {
    let reqs = create_physical_device_extension_requirements();
    assert_eq!(reqs, vec!["VK_KHR_swapchain".to_string()]);
}

#[test]
fn context_configurator_init_test() {
    let _logger = Logger::init(LevelFilter::Trace);
    let _context_config = test_configurator();
    assert!(true);
}

#[test]
fn context_configurator_test() {
    let _logger = Logger::init(LevelFilter::Trace);
    let context_config = test_configurator();
    let _surface = context_config.create_surface().expect("Failed to create surface");

    let candidates = vec![
        mock_candidate(7, DEVICE_TYPE_DISCRETE_GPU, vec![native("VK_KHR_swapchain")]),
        // An integrated device is filtered out by the default mapper.
        mock_candidate(8, 1, vec![native("VK_KHR_swapchain")]),
        // A device without the required extension is filtered out.
        mock_candidate(9, DEVICE_TYPE_DISCRETE_GPU, vec![native("VK_KHR_other")]),
    ];
    let physical_devices = context_config.obtain_physical_devices(candidates);
    assert!(physical_devices.len() > 0);
    assert_eq!(physical_devices.len(), 1);
    assert_eq!(physical_devices[0].device, 7);

    let families = vec![
        QueueFamilyDesc {
            queue_flags: QUEUE_FLAG_GRAPHICS | QUEUE_FLAG_COMPUTE | QUEUE_FLAG_TRANSFER,
            present_support: true,
        },
        QueueFamilyDesc {
            queue_flags: QUEUE_FLAG_TRANSFER,
            present_support: false,
        },
    ];
    let queue_selections = context_config.obtain_queue_families(&families);
    assert!(queue_selections.families.len() > 0);

    let device_info = context_config.select_logical_device(&queue_selections, &physical_devices[0]);
    assert!(device_info.queue_create_infos.len() > 0);
    assert_eq!(device_info.enabled_extensions[0], native("VK_KHR_swapchain"));

    // Retrieve one queue handle per assigned operation, as the driver layer
    // would, keyed by (family, offset).
    let mut queue_handles = QueueHandles::new();
    for (idx, handle) in queue_selections.operations.iter().enumerate() {
        if let Some(handle) = handle {
            queue_handles.queues[idx] = Some((handle.index as u64) << 32 | handle.offset as u64);
        }
    }
    assert!(queue_handles.queues.len() > 0);
}

#[test]
fn test_device_filter_deterministic() {
    // Filtering the same candidate data twice yields the same list.
    let context_config = test_configurator();
    let make_candidates = || {
        vec![
            mock_candidate(1, DEVICE_TYPE_DISCRETE_GPU, vec![native("VK_KHR_swapchain")]),
            mock_candidate(2, 1, vec![native("VK_KHR_swapchain")]),
            mock_candidate(3, DEVICE_TYPE_DISCRETE_GPU, vec![native("VK_KHR_swapchain")]),
        ]
    };
    let first = context_config.obtain_physical_devices(make_candidates());
    let second = context_config.obtain_physical_devices(make_candidates());
    assert_eq!(first.len(), second.len());
    for (a, b) in first.iter().zip(second.iter()) {
        assert_eq!(a.device, b.device);
        assert_eq!(a.features, b.features);
        assert_eq!(a.surface_properties.formats, b.surface_properties.formats);
    }
}

#[test]
fn test_device_filter_rejects_inadequate_surface() {
    let context_config = test_configurator();
    let mut no_formats = mock_candidate(1, DEVICE_TYPE_DISCRETE_GPU, vec![native("VK_KHR_swapchain")]);
    no_formats.surface_properties.formats.clear();
    let mut no_modes = mock_candidate(2, DEVICE_TYPE_DISCRETE_GPU, vec![native("VK_KHR_swapchain")]);
    no_modes.surface_properties.present_modes.clear();
    let filtered = context_config.obtain_physical_devices(vec![no_formats, no_modes]);
    assert_eq!(filtered.len(), 0);
}

#[test]
fn test_end_to_end_negotiation() {
    // The full negotiation against a mock driver: zero requested layers,
    // default extensions, one discrete GPU, swapchain required.
    let base_cfg = BaseConfigBuilder::new()
        .build("Test", "Test", "1.3.0", "1.0.0", "1.0.0")
        .unwrap();
    let reported_layers = vec![native("VK_LAYER_KHRONOS_validation")];
    let base = Base::new(base_cfg, &reported_layers, Platform::Xlib).expect("Failed to create base");

    let context_config = test_configurator();
    let surface = context_config.create_surface().expect("Failed to create surface");

    let candidates = vec![mock_candidate(
        11,
        DEVICE_TYPE_DISCRETE_GPU,
        vec![native("VK_KHR_swapchain"), native("VK_KHR_other")],
    )];
    let physical_devices = context_config.obtain_physical_devices(candidates);
    assert!(physical_devices.len() >= 1);

    let families = vec![QueueFamilyDesc {
        queue_flags: QUEUE_FLAG_GRAPHICS | QUEUE_FLAG_COMPUTE | QUEUE_FLAG_TRANSFER,
        present_support: true,
    }];
    let queue_selections = context_config.obtain_queue_families(&families);
    // At least GRAPHICS and PRESENT are assigned.
    assert!(queue_selections.operations[GRAPHICS].is_some());
    assert!(queue_selections.operations[PRESENT].is_some());
    assert!(queue_selections.operations[COMPUTE].is_some());
    assert!(queue_selections.operations[TRANSFER].is_some());

    let device_info = context_config.select_logical_device(&queue_selections, &physical_devices[0]);
    assert!(device_info.queue_create_infos.len() >= 1);

    // One queue handle per assigned operation.
    let mut queue_handles = QueueHandles::new();
    let mut retrieved = 0;
    for (idx, handle) in queue_selections.operations.iter().enumerate() {
        if let Some(handle) = handle {
            queue_handles.queues[idx] = Some((handle.index as u64) << 32 | handle.offset as u64);
            retrieved += 1;
        }
    }
    assert_eq!(retrieved, 4);

    let context = Context::new(base, surface, physical_devices, 1, queue_handles);

    // Destroying the context releases each handle exactly once.
    let actions = context.teardown_actions();
    let mut device_destroys = 0;
    let mut surface_destroys = 0;
    let mut messenger_destroys = 0;
    let mut instance_destroys = 0;
    for action in actions.iter() {
        match action {
            DestroyAction::DestroyDevice => device_destroys += 1,
            DestroyAction::DestroySurface => surface_destroys += 1,
            DestroyAction::DestroyMessenger => messenger_destroys += 1,
            DestroyAction::DestroyInstance => instance_destroys += 1,
        }
    }
    assert_eq!(device_destroys, 1);
    assert_eq!(surface_destroys, 1);
    assert_eq!(messenger_destroys, 1);
    assert_eq!(instance_destroys, 1);
}

#[test]
fn test_destruction_order() {
    // The logical device is destroyed before the surface, the surface before
    // the instance, and the messenger before the instance.
    let base_cfg = BaseConfigBuilder::new()
        .build("Test", "Test", "1.0.0", "1.0.0", "1.0.0")
        .unwrap();
    let base = Base::new(base_cfg, &Vec::new(), Platform::Xlib).unwrap();
    let context_config = test_configurator();
    let surface = context_config.create_surface().unwrap();
    let context = Context::new(base, surface, Vec::new(), 1, QueueHandles::new());

    let actions = context.teardown_actions();
    assert_eq!(
        actions,
        vec![
            DestroyAction::DestroyDevice,
            DestroyAction::DestroySurface,
            DestroyAction::DestroyMessenger,
            DestroyAction::DestroyInstance,
        ]
    );
}

#[test]
fn test_queue_family_feasibility() {
    let context_config = test_configurator();
    // Family 0: transfer only. Family 1: present only. No graphics anywhere.
    let families = vec![
        QueueFamilyDesc {
            queue_flags: QUEUE_FLAG_TRANSFER,
            present_support: false,
        },
        QueueFamilyDesc {
            queue_flags: 0,
            present_support: true,
        },
    ];
    let selections = context_config.obtain_queue_families(&families);
    assert!(selections.operations[GRAPHICS].is_none());
    assert!(selections.operations[COMPUTE].is_none());
    let t = selections.operations[TRANSFER].as_ref().unwrap();
    assert_eq!(t.index, 0);
    let p = selections.operations[PRESENT].as_ref().unwrap();
    assert_eq!(p.index, 1);
}
