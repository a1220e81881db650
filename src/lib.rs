//! Rendering core for chiptune music videos: a model of the Famicom Disk
//! System sound unit, the NSF and NSFe module formats, loop detection and
//! fade-out decisions for the render loop, and the canvas drawing used for
//! the visualization.
pub mod controller;
pub mod debug_views;
pub mod drawing;
pub mod fds;
pub mod nsf;
pub mod nsfe;
pub mod options;
pub mod piano_roll;
pub mod render;
pub mod ring_buffer;
pub mod text;
