//! The printer-like device that a job is sent to.

use vstd::prelude::*;
use vstd::string::*;

verus! {

/// Represents a USB port.
#[derive(Debug, Clone, Copy, PartialEq, Eq, Structural)]
pub struct USBPort {
    /// The vendor id of the USB device.
    pub vendor_id: u16,
    /// The product id of the USB device.
    pub product_id: u16,
}

/// The printer-like device that we're using.
#[derive(Debug, Clone, PartialEq, Eq)]
pub enum PrintDevice {
    /// We're printing to a device path.
    Path {
        /// The path to send the bytes to.
        path: String,
    },
    /// We're using a USB port.
    USBPort {
        /// The USB port to use.
        port: Option<USBPort>,
    },
}

impl PrintDevice {
    /// The device that is printed to where nothing else is chosen: the first
    /// USB printer port of the system.
    pub fn default_path() -> (device: Self)
        ensures
            device matches PrintDevice::Path { path } && path@ == "/dev/usb/lp0"@,
    {
        PrintDevice::Path { path: String::from_str("/dev/usb/lp0") }
    }

    /// The device at the first of the USB ports that were found, or at none
    /// where none was found.
    pub fn first_usb_port(ports: &[USBPort]) -> (device: Self)
        ensures
            device == (PrintDevice::USBPort {
                port: if ports@.len() > 0 {
                    Some(ports@[0])
                } else {
                    None
                },
            }),
    {
        if ports.len() > 0 {
            PrintDevice::USBPort { port: Some(ports[0]) }
        } else {
            PrintDevice::USBPort { port: None }
        }
    }
}

} // verus!
