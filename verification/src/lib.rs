//! Verified drivers for the peripherals of Apple Silicon machines.
//!
//! Every module holds the logic of one device: what is written to which
//! register and in which order, how messages and descriptors are laid out,
//! how buffers are planned, and when a request is refused.

pub mod admac;
pub mod afk;
pub mod arith;
pub mod asc;
pub mod atcphy;
pub mod avd;
pub mod bus;
pub mod bytes;
pub mod cd321x;
pub mod cpu;
pub mod cpufreq;
pub mod dart;
pub mod dcp;
pub mod dcp_probe;
pub mod devicetree;
pub mod dwc3;
pub mod efuse;
pub mod epic;
pub mod fiq;
pub mod i2c;
pub mod laws;
pub mod mca;
pub mod memory;
pub mod nco;
pub mod pinctrl;
pub mod platform;
pub mod ports;
pub mod registry;
pub mod rtkit;
pub mod spi_hid;
pub mod sysreg;
pub mod tas5770l;
pub mod text;
pub mod wdt;
pub mod wire;
