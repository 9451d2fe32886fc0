//! What drivers ask of the machine around them besides registers. Every call
//! goes through a port, which is the only one that can add to its record.

pub mod clocks;
pub mod display;
pub mod hid;
pub mod irq;
pub mod mail;
pub mod notify;
pub mod pages;
pub mod video;
