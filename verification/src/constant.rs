//! The settings of the window and of the device that the program asks for.

use crate::structs::{DeviceExtension, ValidationInfo};
use vstd::prelude::*;

verus! {

/// The width of the window, in pixels.
pub const WINDOW_WIDTH: u32 = 800;

/// The height of the window, in pixels.
pub const WINDOW_HEIGHT: u32 = 600;

/// The number of frames that may be in work at once.
pub const MAX_FRAMES_IN_FLIGHT: usize = 2;

/// The validation layers that the program asks for.
pub fn validation() -> (r: ValidationInfo)
    ensures
        r.is_enable,
        r.required_validation_layers[0]@ == "VK_LAYER_KHRONOS_validation"@,
{
    ValidationInfo { is_enable: true, required_validation_layers: ["VK_LAYER_KHRONOS_validation"] }
}

/// The device extensions that the program asks for.
pub fn device_extensions() -> (r: DeviceExtension)
    ensures
        r.names[0]@ == "VK_KHR_swapchain"@,
{
    DeviceExtension { names: ["VK_KHR_swapchain"] }
}

} // verus!
