//! The core of a small rendering program: where it keeps its entities, and
//! the rules by which it picks a graphics device and the settings of its
//! swapchain.
//!
//! The heart is a generational slot allocator: a table of slots that hands
//! out stable handles to the values stored in it, reuses the storage of
//! removed values, and tells a handle to a reused slot from a handle to a
//! removed value. [`arena`] holds its mathematical model and the laws proved
//! of it; [`entity_map`] holds the executable table, verified against the
//! model.
//!
//! The other modules hold rules on plain values. The program around this
//! library asks the driver and the window system, hands what they answer to
//! these rules, and acts on what the rules decide.

pub mod arena;
pub mod constant;
pub mod device;
pub mod entity;
pub mod entity_map;
pub mod event;
pub mod structs;
pub mod swapchain;
pub mod utility;
