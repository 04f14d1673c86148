//! Which execution backend a device name stands for.
use vstd::prelude::*;

verus! {

/// An execution backend.
#[derive(Clone, Copy, Debug, PartialEq, Eq, Structural)]
pub enum BackendKind {
    /// The software engine.
    Cpu,
    /// The native GPU engine, reached through a foreign interface.
    Cuda,
}

/// Why a device name stands for no backend that can be used.
#[derive(Clone, Copy, Debug, PartialEq, Eq, Structural)]
pub enum DeviceError {
    /// The backend exists but is not enabled in this build.
    NotEnabled,
    /// No backend goes by this name.
    Unsupported,
}

/// The backend that `device` names: `cpu` is the software engine; `cuda` is
/// the native GPU engine where `cuda_enabled` says that it is built in, and
/// `NotEnabled` where it is not; any other name is `Unsupported`.
pub fn select_backend(device: &str, cuda_enabled: bool) -> (selected: Result<
    BackendKind,
    DeviceError,
>)
    ensures
        selected == (if device@ == "cpu"@ {
            Ok::<BackendKind, DeviceError>(BackendKind::Cpu)
        } else if device@ == "cuda"@ {
            if cuda_enabled {
                Ok::<BackendKind, DeviceError>(BackendKind::Cuda)
            } else {
                Err::<BackendKind, DeviceError>(DeviceError::NotEnabled)
            }
        } else {
            Err::<BackendKind, DeviceError>(DeviceError::Unsupported)
        }),
{
    let name = String::from_str(device);
    if name == String::from_str("cpu") {
        Ok(BackendKind::Cpu)
    } else if name == String::from_str("cuda") {
        if cuda_enabled {
            Ok(BackendKind::Cuda)
        } else {
            Err(DeviceError::NotEnabled)
        }
    } else {
        Err(DeviceError::Unsupported)
    }
}

} // verus!
