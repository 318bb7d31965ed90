//! Telemetry: the stand-in that makes up its memory figures, and the rules by
//! which the device derives its figures from the stack pointer and the
//! battery's converter.

use crate::hardware::SystemDriver;
use rand::Rng;
use vstd::prelude::*;

verus! {

/// The memory that the stand-in claims to have, in bytes.
pub const FAKEMEM_TOTAL: u64 = 1_048_576;

/// The least memory that the stand-in claims to use, in bytes.
pub const FAKEMEM_FLOOR: u64 = 1024;

/// One past the highest address of the device's memory, where the stack
/// starts.
pub const RAM_TOP: u64 = 0x2004_0000;

/// The lowest address of the device's memory.
pub const RAM_BASE: u64 = 0x2000_0000;

/// The converter's reading of an empty battery.
pub const BATTERY_EMPTY: u32 = 1862;

/// How far the converter's reading of a full battery lies above that of an
/// empty one.
pub const BATTERY_SPAN: u32 = 744;

/// `Rng::gen_range` on the thread's generator: some number of the half-open
/// range. Which one is left open: two calls may differ.
#[verifier::external_body]
fn sample_between(low: u64, high: u64) -> (n: u64)
    requires
        low < high,
    ensures
        low <= n < high,
{
    rand::thread_rng().gen_range(low..high)
}

/// The bytes in use when the stack has grown down to `stack_pointer`: the
/// distance from the top of the memory, and no more than the memory holds
/// where the pointer lies outside it.
pub open spec fn stack_usage(stack_pointer: u32) -> u64 {
    if stack_pointer >= RAM_TOP {
        0
    } else if stack_pointer <= RAM_BASE {
        (RAM_TOP - RAM_BASE) as u64
    } else {
        (RAM_TOP - stack_pointer) as u64
    }
}

/// The charge that a reading of the battery's converter stands for, in
/// percent: linear between the readings of an empty and of a full battery,
/// rounded down, and held to the range beyond them.
pub open spec fn charge_of(counts: u32) -> u8 {
    if counts <= BATTERY_EMPTY {
        0
    } else if counts >= BATTERY_EMPTY + BATTERY_SPAN {
        100
    } else {
        ((counts - BATTERY_EMPTY) * 100 / (BATTERY_SPAN as int)) as u8
    }
}

/// The memory of the device, in bytes.
pub fn ram_total() -> (bytes: u64)
    ensures
        bytes == RAM_TOP - RAM_BASE,
{
    RAM_TOP - RAM_BASE
}

/// The memory in use, in bytes, from the main stack pointer.
pub fn ram_used(stack_pointer: u32) -> (bytes: u64)
    ensures
        bytes == stack_usage(stack_pointer),
        bytes <= RAM_TOP - RAM_BASE,
{
    let at: u64 = stack_pointer as u64;
    if at >= RAM_TOP {
        0
    } else if at <= RAM_BASE {
        RAM_TOP - RAM_BASE
    } else {
        RAM_TOP - at
    }
}

/// The charge of the battery, in percent, from the averaged reading of its
/// converter.
pub fn battery_percent(counts: u32) -> (percent: u8)
    ensures
        percent == charge_of(counts),
        percent <= 100,
{
    if counts <= BATTERY_EMPTY {
        0
    } else if counts >= BATTERY_EMPTY + BATTERY_SPAN {
        100
    } else {
        let above: u32 = counts - BATTERY_EMPTY;
        let percent: u32 = above * 100 / BATTERY_SPAN;
        percent as u8
    }
}

/// The stand-in for the device's telemetry. It has a mebibyte of memory, of
/// which a made-up share is in use, and no battery to run down.
pub struct System {
    last_used: u64,
}

impl System {
    /// A stand-in that has sampled nothing yet.
    pub fn new() -> (system: System)
        ensures
            system.sampled() == 0,
    {
        System { last_used: 0 }
    }

    /// The memory in use as it was last sampled, and zero before the first
    /// sample.
    pub fn last_used(&self) -> (bytes: u64)
        ensures
            bytes == self.sampled(),
    {
        self.last_used
    }
}

impl SystemDriver for System {
    /// The total that the stand-in claims.
    open spec fn capacity(&self) -> u64 {
        FAKEMEM_TOTAL
    }

    /// The figure that the stand-in made up last.
    closed spec fn sampled(&self) -> u64 {
        self.last_used
    }

    /// Some figure from `FAKEMEM_FLOOR` up to, and not including, the total.
    fn memory_used(&mut self) -> (bytes: u64)
        ensures
            FAKEMEM_FLOOR <= bytes < FAKEMEM_TOTAL,
    {
        self.last_used = sample_between(FAKEMEM_FLOOR, FAKEMEM_TOTAL);
        self.last_used
    }

    /// The total that the stand-in claims.
    fn memory_total(&mut self) -> (bytes: u64)
        ensures
            bytes == FAKEMEM_TOTAL,
    {
        FAKEMEM_TOTAL
    }

    /// Always full.
    fn battery_level(&mut self) -> (percent: u8)
        ensures
            percent == 100,
    {
        100
    }
}

} // verus!
