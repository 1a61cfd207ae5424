//! The drivers that are registered at boot.

use vstd::prelude::*;
use crate::driver::Driver;

verus! {

/// The real-time clock driver.
pub fn drv0_init_fn() -> (d: Driver<'static>)
    ensures
        d.name@ == "rtc"@,
        d.compatible@ == "google,goldfish-rtc"@,
{
    Driver::info("rtc", "google,goldfish-rtc")
}

/// The serial port driver.
pub fn drv1_init_fn() -> (d: Driver<'static>)
    ensures
        d.name@ == "uart"@,
        d.compatible@ == "ns16550a"@,
{
    Driver::info("uart", "ns16550a")
}

/// The GPIO keys driver.
pub fn drv2_init_fn() -> (d: Driver<'static>)
    ensures
        d.name@ == "gpio-keys"@,
        d.compatible@ == "gpio-keys"@,
{
    let name = "gpio-keys";
    let compatible = "gpio-keys";
    Driver { name, compatible }
}

} // verus!
