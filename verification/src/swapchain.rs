//! The rules by which the settings of a swapchain are chosen from what a
//! surface offers.

use crate::constant::{WINDOW_HEIGHT, WINDOW_WIDTH};
use crate::structs::{Extent2D, SurfaceCapabilities, SurfaceFormat};
use vstd::prelude::*;

verus! {

/// `value`, or the nearer of `low` and `high` where it lies outside them.
pub open spec fn clamped(value: u32, low: u32, high: u32) -> u32 {
    if value < low {
        low
    } else if value > high {
        high
    } else {
        value
    }
}

/// `value` brought into the range from `low` to `high`.
pub fn clamp(value: u32, low: u32, high: u32) -> (r: u32)
    requires
        low <= high,
    ensures
        r == clamped(value, low, high),
        low <= r <= high,
{
    if value < low {
        low
    } else if value > high {
        high
    } else {
        value
    }
}

/// The format of the swapchain: `preferred` where it is among
/// `available_formats`, else the first of them.
pub fn choose_swapchain_format(
    available_formats: &Vec<SurfaceFormat>,
    preferred: SurfaceFormat,
) -> (r: SurfaceFormat)
    requires
        available_formats@.len() > 0,
    ensures
        r == (if available_formats@.contains(preferred) {
            preferred
        } else {
            available_formats@[0]
        }),
{
    let mut at: usize = 0;
    while at < available_formats.len()
        invariant
            at <= available_formats@.len(),
            forall|i: int| 0 <= i < at ==> available_formats@[i] != preferred,
        decreases available_formats@.len() - at,
    {
        let available_format = &available_formats[at];
        if available_format.format == preferred.format && available_format.color_space
            == preferred.color_space {
            return *available_format;
        }
        at += 1;
    }
    available_formats[0]
}

/// The present mode of the swapchain: `preferred` where it is among
/// `available_present_modes`, else `fallback`.
pub fn choose_swapchain_present_mode(
    available_present_modes: &Vec<i32>,
    preferred: i32,
    fallback: i32,
) -> (r: i32)
    ensures
        r == (if available_present_modes@.contains(preferred) {
            preferred
        } else {
            fallback
        }),
{
    let mut at: usize = 0;
    while at < available_present_modes.len()
        invariant
            at <= available_present_modes@.len(),
            forall|i: int| 0 <= i < at ==> available_present_modes@[i] != preferred,
        decreases available_present_modes@.len() - at,
    {
        if available_present_modes[at] == preferred {
            return preferred;
        }
        at += 1;
    }
    fallback
}

/// The size of the swapchain images: that of the surface where the surface
/// has one, else that of the window, brought within the limits of the
/// surface.
pub fn choose_swapchain_extent(capabilities: &SurfaceCapabilities) -> (r: Extent2D)
    requires
        capabilities.current_extent.width == u32::MAX ==> {
            &&& capabilities.min_image_extent.width <= capabilities.max_image_extent.width
            &&& capabilities.min_image_extent.height <= capabilities.max_image_extent.height
        },
    ensures
        r == (if capabilities.current_extent.width != u32::MAX {
            capabilities.current_extent
        } else {
            Extent2D {
                width: clamped(
                    WINDOW_WIDTH,
                    capabilities.min_image_extent.width,
                    capabilities.max_image_extent.width,
                ),
                height: clamped(
                    WINDOW_HEIGHT,
                    capabilities.min_image_extent.height,
                    capabilities.max_image_extent.height,
                ),
            }
        }),
{
    if capabilities.current_extent.width != u32::MAX {
        capabilities.current_extent
    } else {
        Extent2D {
            width: clamp(
                WINDOW_WIDTH,
                capabilities.min_image_extent.width,
                capabilities.max_image_extent.width,
            ),
            height: clamp(
                WINDOW_HEIGHT,
                capabilities.min_image_extent.height,
                capabilities.max_image_extent.height,
            ),
        }
    }
}

/// The number of swapchain images to ask for: one more than the least that
/// the surface takes, but no more than the most it takes, where it sets a
/// limit.
pub fn choose_image_count(capabilities: &SurfaceCapabilities) -> (r: u32)
    requires
        capabilities.min_image_count < u32::MAX,
    ensures
        r == (if capabilities.max_image_count > 0 && capabilities.max_image_count
            < capabilities.min_image_count + 1 {
            capabilities.max_image_count
        } else {
            (capabilities.min_image_count + 1) as u32
        }),
{
    let image_count = capabilities.min_image_count + 1;
    if capabilities.max_image_count > 0 && capabilities.max_image_count < image_count {
        capabilities.max_image_count
    } else {
        image_count
    }
}

} // verus!
