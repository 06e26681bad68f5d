//! Firmware detection and secure-boot checking at the boot edge.

use vstd::prelude::*;

verus! {

/// Firmware flavour the machine was booted by.
#[derive(Clone, Copy, PartialEq, Eq, Structural, Debug)]
pub enum FirmwareType {
    /// UEFI firmware.
    Uefi,
    /// Legacy BIOS.
    Bios,
}

/// Secure boot error types.
#[derive(Clone, Copy, PartialEq, Eq, Structural, Debug)]
pub enum SecureBootError {
    /// Signature verification failed.
    InvalidSignature,
    /// Secure boot not enabled.
    NotEnabled,
    /// Certificate chain invalid.
    InvalidCertChain,
}

/// Detect the firmware type.  Boot information is handed over by a UEFI
/// bootloader, so this reports UEFI; reading firmware tables directly is
/// the surrounding kernel's concern.
pub fn detect_firmware() -> (r: FirmwareType)
    ensures
        r == FirmwareType::Uefi,
{
    FirmwareType::Uefi
}

/// Verify the secure-boot signature chain.  Signature checking is an
/// extension point backed by the capability tokens' reserved signature
/// blocks; until a verifier is wired in, the boot is accepted.
pub fn verify_secure_boot() -> (r: Result<(), SecureBootError>)
    ensures
        r is Ok,
{
    Ok(())
}

} // verus!
