//! Presentation surface model.
//!
//! A surface binds a platform window handle to the graphics instance. The
//! decision verified here is the platform dispatch: which platform surface
//! entry point a window/display handle pair selects, and that a mismatched
//! or unsupported pair is rejected rather than accepted. The driver call
//! that creates the surface, and the per-device surface queries, live
//! outside the library; the query results come back as the plain
//! `SurfaceProperties` data the device filter reads.

use vstd::prelude::*;

use crate::errors::Error;

verus! {

/// A platform window handle, reduced to what the dispatch reads: its kind,
/// and whether the fields the matching entry point needs are present.
#[derive(Clone, Copy, Debug, PartialEq, Eq, Structural)]
pub enum WindowHandle {
    /// A Win32 window; the creation call needs the instance handle.
    Win32 {
        /// Whether the window carries its module instance handle.
        hinstance_present: bool,
    },
    /// A Wayland surface.
    Wayland,
    /// An XCB window.
    Xcb,
    /// An Xlib window.
    Xlib,
    /// Any other window kind.
    Other,
}

/// A platform display handle, reduced to what the dispatch reads.
#[derive(Clone, Copy, Debug, PartialEq, Eq, Structural)]
pub enum DisplayHandle {
    /// A Windows display.
    Windows,
    /// A Wayland display.
    Wayland,
    /// An XCB display; the creation call needs the connection.
    Xcb {
        /// Whether the display carries its connection pointer.
        connection_present: bool,
    },
    /// An Xlib display; the creation call needs the display pointer.
    Xlib {
        /// Whether the display carries its display pointer.
        display_present: bool,
    },
    /// Any other display kind.
    Other,
}

/// The platform surface-creation entry point a handle pair selects.
#[derive(Clone, Copy, Debug, PartialEq, Eq, Structural)]
pub enum SurfaceBackend {
    /// Create a Win32 surface.
    Win32,
    /// Create a Wayland surface.
    Wayland,
    /// Create an XCB surface.
    Xcb,
    /// Create an Xlib surface.
    Xlib,
}

/// Which backend a window/display pair selects: the window kind picks the
/// entry point, the display must match it and carry the fields the call
/// needs; anything else is unsupported.
pub open spec fn spec_surface_backend(window: WindowHandle, display: DisplayHandle) -> Option<
    SurfaceBackend,
> {
    match window {
        WindowHandle::Win32 { hinstance_present } => if hinstance_present {
            Option::Some(SurfaceBackend::Win32)
        } else {
            Option::None
        },
        WindowHandle::Wayland => if display is Wayland {
            Option::Some(SurfaceBackend::Wayland)
        } else {
            Option::None
        },
        WindowHandle::Xcb => match display {
            DisplayHandle::Xcb { connection_present } => if connection_present {
                Option::Some(SurfaceBackend::Xcb)
            } else {
                Option::None
            },
            _ => Option::None,
        },
        WindowHandle::Xlib => match display {
            DisplayHandle::Xlib { display_present } => if display_present {
                Option::Some(SurfaceBackend::Xlib)
            } else {
                Option::None
            },
            _ => Option::None,
        },
        WindowHandle::Other => Option::None,
    }
}

/// The presentation surface: the backend its handle pair selected, standing
/// for the surface handle it owns.
#[derive(Debug)]
pub struct Surface {
    /// The platform entry point the surface was created through.
    pub backend: SurfaceBackend,
    /// The window handle the surface is bound to.
    pub window: WindowHandle,
    /// The display handle the surface is bound to.
    pub display: DisplayHandle,
}

impl Surface {
    /// Dispatches on the window/display handle pair: selects the platform
    /// surface backend, or fails with `Error::UnsupportedPlatform` iff the
    /// pair is unsupported or mismatched.
    pub fn new(window: WindowHandle, display: DisplayHandle) -> (r: Result<Surface, Error>)
        ensures
            match r {
                Result::Ok(s) => {
                    &&& spec_surface_backend(window, display) == Some(s.backend)
                    &&& s.window == window
                    &&& s.display == display
                },
                Result::Err(e) => {
                    &&& e == Error::UnsupportedPlatform
                    &&& spec_surface_backend(window, display) is None
                },
            },
    {
        let backend = match window {
            WindowHandle::Win32 { hinstance_present } => {
                if hinstance_present {
                    SurfaceBackend::Win32
                } else {
                    return Err(Error::UnsupportedPlatform);
                }
            },
            WindowHandle::Wayland => {
                match display {
                    DisplayHandle::Wayland => SurfaceBackend::Wayland,
                    _ => {
                        return Err(Error::UnsupportedPlatform);
                    },
                }
            },
            WindowHandle::Xcb => {
                match display {
                    DisplayHandle::Xcb { connection_present } => {
                        if connection_present {
                            SurfaceBackend::Xcb
                        } else {
                            return Err(Error::UnsupportedPlatform);
                        }
                    },
                    _ => {
                        return Err(Error::UnsupportedPlatform);
                    },
                }
            },
            WindowHandle::Xlib => {
                match display {
                    DisplayHandle::Xlib { display_present } => {
                        if display_present {
                            SurfaceBackend::Xlib
                        } else {
                            return Err(Error::UnsupportedPlatform);
                        }
                    },
                    _ => {
                        return Err(Error::UnsupportedPlatform);
                    },
                }
            },
            WindowHandle::Other => {
                return Err(Error::UnsupportedPlatform);
            },
        };
        Ok(Surface { backend, window, display })
    }
}

/// A surface format the driver reports for a device: the pixel format and
/// the color space, as native enumeration values.
#[derive(Clone, Copy, Debug, PartialEq, Eq, Structural)]
pub struct SurfaceFormat {
    /// Native pixel-format value.
    pub format: u32,
    /// Native color-space value.
    pub color_space: u32,
}

/// Surface capabilities the driver reports for a device.
#[derive(Clone, Copy, Debug, PartialEq, Eq, Structural)]
pub struct SurfaceCapabilities {
    /// Fewest presentable images the surface supports.
    pub min_image_count: u32,
    /// Most presentable images the surface supports; 0 for no limit.
    pub max_image_count: u32,
    /// Current surface width in pixels.
    pub current_width: u32,
    /// Current surface height in pixels.
    pub current_height: u32,
}

/// Everything the device filter reads of a device's surface support:
/// capabilities, supported formats, and supported present modes.
#[derive(Debug)]
pub struct SurfaceProperties {
    /// Reported surface capabilities.
    pub surface_capabilities: SurfaceCapabilities,
    /// Reported surface formats.
    pub formats: Vec<SurfaceFormat>,
    /// Reported present modes, as native enumeration values.
    pub present_modes: Vec<u32>,
}

impl SurfaceProperties {
    /// A device's surface support is adequate when it reports at least one
    /// format and at least one present mode.
    pub open spec fn spec_adequate(&self) -> bool {
        self.formats@.len() > 0 && self.present_modes@.len() > 0
    }
}

} // verus!
