//! Frame planning for a GUI rendering backend: the texture handle table, the
//! walk that turns a GUI command list into indexed draw spans, the vertex
//! layout the GUI toolkit writes into, and the texture upload geometry.
//! The graphics device itself is driven by the integration layer.

pub mod registry;
pub mod spans;
pub mod layout;
pub mod upload;
