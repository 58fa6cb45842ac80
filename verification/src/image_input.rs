//! The images a caller hands to a pipeline: raw pixels, a Vulkan image, and
//! the Vulkan handles a pipeline can share. The library keeps them as plain
//! values; the C layout with pointers is built outside the library.
use vstd::prelude::*;

verus! {

/// Raw 8-bit pixels: `width` by `height` pixels of `num_compunents`
/// components each, row after row.
pub struct RawImageInput {
    pub image: Vec<u8>,
    pub num_compunents: u32,
    pub width: u32,
    pub height: u32,
}

impl RawImageInput {
    /// The pixel buffer holds exactly the components of every pixel.
    pub open spec fn wf(&self) -> bool {
        self.image@.len() == self.num_compunents as int * self.width as int * self.height as int
    }
}

/// A Vulkan image handed over as input; it carries nothing yet.
pub struct VulkanImageInput {}

/// The Vulkan instance and devices a pipeline can share with its caller.
pub struct VulkanImportInfo {
    pub instance: u64,
    pub devices: Vec<u64>,
    pub num_devices: u32,
}

impl VulkanImportInfo {
    /// `num_devices` counts the devices.
    pub open spec fn wf(&self) -> bool {
        self.devices@.len() == self.num_devices
    }
}

} // verus!
