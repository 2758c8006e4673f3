use vkscaffold::errors::Error;
use vkscaffold::surface::{DisplayHandle, Surface, SurfaceBackend, WindowHandle};

#[test]
fn test_surface_dispatch_matching_pairs() {
    let s = Surface::new(
        WindowHandle::Win32 {
            hinstance_present: true,
        },
        DisplayHandle::Windows,
    )
    .unwrap();
    assert_eq!(s.backend, SurfaceBackend::Win32);

    let s = Surface::new(WindowHandle::Wayland, DisplayHandle::Wayland).unwrap();
    assert_eq!(s.backend, SurfaceBackend::Wayland);

    let s = Surface::new(
        WindowHandle::Xcb,
        DisplayHandle::Xcb {
            connection_present: true,
        },
    )
    .unwrap();
    assert_eq!(s.backend, SurfaceBackend::Xcb);

    let s = Surface::new(
        WindowHandle::Xlib,
        DisplayHandle::Xlib {
            display_present: true,
        },
    )
    .unwrap();
    assert_eq!(s.backend, SurfaceBackend::Xlib);
}

#[test]
fn test_surface_dispatch_mismatched_pairs() {
    // A Wayland window with a non-Wayland display is a mismatch.
    let e = Surface::new(WindowHandle::Wayland, DisplayHandle::Windows).unwrap_err();
    assert_eq!(e, Error::UnsupportedPlatform);

    // An XCB window with an Xlib display is a mismatch.
    let e = Surface::new(
        WindowHandle::Xcb,
        DisplayHandle::Xlib {
            display_present: true,
        },
    )
    .unwrap_err();
    assert_eq!(e, Error::UnsupportedPlatform);

    // A Win32 window without its instance handle cannot be bound.
    let e = Surface::new(
        WindowHandle::Win32 {
            hinstance_present: false,
        },
        DisplayHandle::Windows,
    )
    .unwrap_err();
    assert_eq!(e, Error::UnsupportedPlatform);

    // An XCB display without a connection cannot be bound.
    let e = Surface::new(
        WindowHandle::Xcb,
        DisplayHandle::Xcb {
            connection_present: false,
        },
    )
    .unwrap_err();
    assert_eq!(e, Error::UnsupportedPlatform);

    // An unknown window kind is unsupported.
    let e = Surface::new(WindowHandle::Other, DisplayHandle::Other).unwrap_err();
    assert_eq!(e, Error::UnsupportedPlatform);
}
