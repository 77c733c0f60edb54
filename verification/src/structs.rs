//! Plain descriptions of what a graphics device offers, as the selection
//! rules read them.

use vstd::prelude::*;

verus! {

/// The device extensions that a device must offer.
#[derive(Clone, Copy, Debug)]
pub struct DeviceExtension {
    pub names: [&'static str; 1],
}

/// Whether validation layers are asked for, and which.
#[derive(Clone, Copy, Debug)]
pub struct ValidationInfo {
    pub is_enable: bool,
    pub required_validation_layers: [&'static str; 1],
}

/// What one queue family of a device can do.
#[derive(Clone, Copy, Debug, PartialEq, Eq)]
pub struct QueueFamily {
    /// The number of queues in the family.
    pub queue_count: u32,
    /// Whether its queues take graphics commands.
    pub graphics: bool,
    /// Whether its queues can present to the surface.
    pub present: bool,
}

impl QueueFamily {
    /// The family has a queue that takes graphics commands.
    pub open spec fn serves_graphics(self) -> bool {
        self.queue_count > 0 && self.graphics
    }

    /// The family has a queue that can present to the surface.
    pub open spec fn serves_present(self) -> bool {
        self.queue_count > 0 && self.present
    }
}

/// The queue families chosen for graphics and for presenting.
#[derive(Clone, Copy, Debug, PartialEq, Eq)]
pub struct QueueFamilyIndices {
    pub graphics_family: Option<u32>,
    pub present_family: Option<u32>,
}

impl QueueFamilyIndices {
    /// No family chosen yet.
    pub fn new() -> (r: QueueFamilyIndices)
        ensures
            r.graphics_family is None,
            r.present_family is None,
    {
        QueueFamilyIndices { graphics_family: None, present_family: None }
    }

    /// A family is chosen for graphics and one for presenting.
    pub open spec fn complete(self) -> bool {
        self.graphics_family is Some && self.present_family is Some
    }

    /// Whether a family is chosen for graphics and one for presenting.
    pub fn is_complete(&self) -> (b: bool)
        ensures
            b == self.complete(),
    {
        self.graphics_family.is_some() && self.present_family.is_some()
    }

    /// The choice after a look at family number `index`: it takes the place
    /// of an earlier choice for each purpose that it serves.
    pub open spec fn seen(self, index: u32, family: QueueFamily) -> QueueFamilyIndices {
        QueueFamilyIndices {
            graphics_family: if family.serves_graphics() {
                Some(index)
            } else {
                self.graphics_family
            },
            present_family: if family.serves_present() {
                Some(index)
            } else {
                self.present_family
            },
        }
    }

    /// The families that queues are created for: the one for graphics and
    /// the one for presenting, once where they are the same.
    pub fn unique_families(&self) -> (r: Vec<u32>)
        requires
            self.complete(),
        ensures
            r@ == (if self.graphics_family == self.present_family {
                seq![self.graphics_family->0]
            } else {
                seq![self.graphics_family->0, self.present_family->0]
            }),
    {
        let graphics = self.graphics_family.unwrap();
        let present = self.present_family.unwrap();
        let mut families: Vec<u32> = Vec::new();
        families.push(graphics);
        if present != graphics {
            families.push(present);
        }
        families
    }

    /// The families that share the swapchain images: both where graphics
    /// and presenting use different families, none where they use one.
    pub fn sharing_families(&self) -> (r: Vec<u32>)
        requires
            self.graphics_family != self.present_family ==> self.complete(),
        ensures
            r@ == (if self.graphics_family == self.present_family {
                Seq::<u32>::empty()
            } else {
                seq![self.graphics_family->0, self.present_family->0]
            }),
    {
        let mut families: Vec<u32> = Vec::new();
        let same = match (self.graphics_family, self.present_family) {
            (Some(graphics), Some(present)) => graphics == present,
            (None, None) => true,
            _ => false,
        };
        if !same {
            families.push(self.graphics_family.unwrap());
            families.push(self.present_family.unwrap());
        }
        families
    }
}

/// A size in pixels.
#[derive(Clone, Copy, Debug, PartialEq, Eq)]
pub struct Extent2D {
    pub width: u32,
    pub height: u32,
}

/// A pixel format together with a colour space, both by their numbers.
#[derive(Clone, Copy, Debug, PartialEq, Eq)]
pub struct SurfaceFormat {
    pub format: i32,
    pub color_space: i32,
}

/// The limits that a surface sets for a swapchain.
#[derive(Clone, Copy, Debug, PartialEq, Eq)]
pub struct SurfaceCapabilities {
    pub min_image_count: u32,
    /// The largest number of images, or 0 for no limit.
    pub max_image_count: u32,
    /// The size of the surface, or a width of `u32::MAX` where the swapchain
    /// decides it.
    pub current_extent: Extent2D,
    pub min_image_extent: Extent2D,
    pub max_image_extent: Extent2D,
}

/// What a device offers for a swapchain on a surface.
#[derive(Clone, Debug)]
pub struct SwapChainSupportDetail {
    pub capabilities: SurfaceCapabilities,
    pub formats: Vec<SurfaceFormat>,
    /// The present modes, by their numbers.
    pub present_modes: Vec<i32>,
}

impl SwapChainSupportDetail {
    /// Whether a swapchain can be made at all: at least one format and one
    /// present mode are on offer.
    pub fn is_adequate(&self) -> (b: bool)
        ensures
            b == (self.formats@.len() > 0 && self.present_modes@.len() > 0),
    {
        !self.formats.is_empty() && !self.present_modes.is_empty()
    }
}

} // verus!
