//! The two kinds of address: those of the executable as it was linked, of
//! which the debug information speaks, and those of the running debuggee.
//! They differ by the load bias of the run. The address space wraps.

use vstd::prelude::*;

verus! {

/// The load bias of an executable that the kernel places at its usual base
/// while address space randomisation is off.
pub const BIAS: u64 = 0x555555554000;

/// The run-time address of a link-time address.
pub open spec fn runtime_of(offline: u64, bias: u64) -> u64 {
    if offline + bias <= u64::MAX {
        (offline + bias) as u64
    } else {
        (offline + bias - 0x1_0000_0000_0000_0000) as u64
    }
}

/// The link-time address of a run-time address.
pub open spec fn offline_of(runtime: u64, bias: u64) -> u64 {
    if runtime >= bias {
        (runtime - bias) as u64
    } else {
        (runtime - bias + 0x1_0000_0000_0000_0000) as u64
    }
}

/// The run-time address of a link-time address.
pub fn runtime_addr(offline: u64, bias: u64) -> (runtime: u64)
    ensures
        runtime == runtime_of(offline, bias),
{
    offline.wrapping_add(bias)
}

/// The link-time address of a run-time address.
pub fn offline_addr(runtime: u64, bias: u64) -> (offline: u64)
    ensures
        offline == offline_of(runtime, bias),
{
    runtime.wrapping_sub(bias)
}

/// Taking a link-time address to the run and back gives the address, and
/// so does taking a run-time address to the executable and back.
pub proof fn law_addresses_round_trip(addr: u64, bias: u64)
    ensures
        offline_of(runtime_of(addr, bias), bias) == addr,
        runtime_of(offline_of(addr, bias), bias) == addr,
{
}

/// The address just before `addr`, where a trap that was hit at `addr`
/// stands.
pub open spec fn before(addr: u64) -> u64 {
    offline_of(addr, 1)
}

/// A debuggee that has run into the trap of a breakpoint stands at the next
/// address, and the trap before it maps back to the breakpoint: whatever
/// the bias, the link-time address of the trap is the breakpoint's.
pub proof fn law_trap_maps_back(addr: u64, bias: u64)
    ensures
        offline_of(before(runtime_of(runtime_of(addr, bias), 1)), bias) == addr,
        before(runtime_of(runtime_of(addr, bias), 1)) == runtime_of(addr, bias),
{
}

/// The address of the trap of which `rip` is the next address.
pub fn trap_addr(rip: u64) -> (addr: u64)
    ensures
        addr == before(rip),
{
    rip.wrapping_sub(1)
}

} // verus!
