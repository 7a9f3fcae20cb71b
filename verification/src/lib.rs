//! Shiloh engine logic: streaming, replication, input, render-graph ordering,
//! scripting IR and editor helpers, with their contracts.

pub mod std_types;
pub mod world_partition;
pub mod collections;
pub mod render_graph;
pub mod network;
pub mod text;
pub mod script_editor;
pub mod input;
pub mod rhi;
pub mod scripting;
pub mod highlight;
pub mod world_items;
pub mod import;
pub mod viewport;
pub mod selection;
pub mod play_mode;
pub mod project;
pub mod node_graph;
pub mod components;
pub mod outliner;
pub mod console;
pub mod slice_frame;
pub mod shortcuts;
pub mod mesh_topology;
pub mod hierarchy;
