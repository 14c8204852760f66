//! Print preparation for HPGL/2 laser cutters: bed geometry, tool passes, path
//! transformation, HPGL synthesis and the PCL envelope around it.
//!
//! Lengths are fixed-point: every millimetre quantity is an integer number of
//! micrometres, so that one plotter unit (0.025 mm) is exactly 25 of them.

pub mod bed;
pub mod decimal;
pub mod default_passes;
pub mod design;
pub mod design_move;
pub mod device;
pub mod file_dialog;
pub mod hpgl;
pub mod job;
pub mod packaging;
pub mod paths;
pub mod pcl;
pub mod planchette;
pub mod preview;
pub mod preview_worker;
pub mod svg;
pub mod text;
pub mod laser_passes;

pub use design::DesignFile;
pub use device::{PrintDevice, USBPort};
pub use file_dialog::all_capitalisations_of;
pub use job::{PrintJob, SendToDeviceError};
pub use paths::DesignOffset;
pub use laser_passes::ToolPass;
pub use paths::resolve_paths;
