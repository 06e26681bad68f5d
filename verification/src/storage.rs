//! Storage subsystem entry points.  The device drivers behind them are
//! external collaborators of this core; the operations here answer with
//! empty transfers until a driver is attached.

use vstd::prelude::*;

verus! {

/// Storage errors.
#[derive(Clone, Copy, PartialEq, Eq, Structural, Debug)]
pub enum StorageError {
    DeviceNotFound,
    IoError,
    CompressionFailed,
}

/// Initialize the storage subsystem; devices attach on demand.
pub fn init() {
}

/// Read from a storage device into `buffer`, answering the number of
/// bytes transferred.  With no driver attached, nothing is transferred.
pub fn read(_device: u32, _offset: u64, buffer: &mut Vec<u8>) -> (r: Result<usize, StorageError>)
    ensures
        r == Ok::<usize, StorageError>(0),
        final(buffer)@ == old(buffer)@,
{
    Ok(0)
}

/// Write to a storage device, answering the number of bytes transferred.
/// With no driver attached, nothing is transferred.
pub fn write(_device: u32, _offset: u64, _data: &[u8]) -> (r: Result<usize, StorageError>)
    ensures
        r == Ok::<usize, StorageError>(0),
{
    Ok(0)
}

} // verus!
