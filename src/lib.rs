//! Early boot stage of a kernel loader: a block-cached volume over a raw
//! block device, partition selection and kernel image loading.
use vstd::prelude::*;

pub mod boot;
pub mod mem_device;
pub mod timer;
pub mod volume;

pub use boot::load_kernel;
pub use timer::Vf2Ticker;
pub use volume::{DevError, Volume};

verus! {

/// Base address of the console UART.
pub const UART_BASE: usize = 0x10000000;

/// Base address of the SD/MMC host controller.
pub const SDIO_BASE: usize = 0x16020000;

/// How much the boot log shows.
#[derive(Debug, Clone, Copy, PartialEq, Eq)]
pub enum LogLevel {
    Error,
    Warn,
    Info,
    Debug,
    Trace,
}

/// What the boot environment is brought up with: the devices to initialise,
/// the log level, and where free memory starts.
#[derive(Debug, Clone, Copy, PartialEq, Eq)]
pub struct BootEnv {
    pub uart_base: usize,
    pub sdio_base: usize,
    pub log_level: LogLevel,
    /// First byte of memory after the loader's own image.
    pub heap_start: usize,
}

/// The environment to bring up for a loader image that ends at `code_end`:
/// console first, then the boot log at debug level, the SD host, and memory
/// from `code_end` on.
pub fn init(code_end: usize) -> (r: BootEnv)
    ensures
        r == (BootEnv { uart_base: UART_BASE, sdio_base: SDIO_BASE, log_level: LogLevel::Debug, heap_start: code_end }),
{
    BootEnv { uart_base: UART_BASE, sdio_base: SDIO_BASE, log_level: LogLevel::Debug, heap_start: code_end }
}

} // verus!
