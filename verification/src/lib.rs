//! Translate vendor hierarchical hardware-description documents (device and
//! peripheral descriptors) into a standard register-map description, so that
//! downstream header and driver generators can consume register, field and
//! enumerated-value metadata in a well-known schema.
//!
//! The library works on plain element events: the caller reads the document
//! into element-open and element-close events ([`events::ElemEvent`]) and
//! serializes the abstract output events ([`events::OutEvent`]) it gets
//! back. The two transducers ([`peripheral`] and [`device`]) each carry a
//! mathematical step function, and every executable step is proved to
//! follow it exactly: what is emitted, what is reported, which state comes
//! next, and when the conversion fails.

pub mod access;
pub mod dedup;
pub mod device;
pub mod diag;
pub mod events;
pub mod num;
pub mod pack;
pub mod peripheral;
pub mod state;
pub mod text;

use vstd::prelude::*;

verus! {

/// Options that select the conversion behaviour.
pub struct Args {
    /// Produce no output other than the converted data.
    pub silent: bool,
    /// Produce additional diagnostic output, given 0, 1, 2, etc.
    pub verbose: u32,
    /// Expect a peripheral file instead of a device file.
    pub peripheral_only: bool,
    /// Sanitize the output (for picky downstream code generators).
    pub sanitize: bool,
    /// Do not generate synthesized device info in the file header.
    pub no_device_info: bool,
    /// If there are several CPUs, read peripherals from CPU 0, 1, or 2, for example.
    pub cpunum: u32,
}

impl Args {
    pub fn new(
        silent: bool,
        verbose: u32,
        peripheral_only: bool,
        sanitize: bool,
        no_device_info: bool,
        cpunum: u32,
    ) -> (a: Args)
        ensures
            a.silent == silent,
            a.verbose == verbose,
            a.peripheral_only == peripheral_only,
            a.sanitize == sanitize,
            a.no_device_info == no_device_info,
            a.cpunum == cpunum,
    {
        Args { silent, verbose, peripheral_only, sanitize, no_device_info, cpunum }
    }
}

} // verus!
