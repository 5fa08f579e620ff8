//! Configuration passed to the main device.

use vstd::prelude::*;

verus! {

/// Network communication retry policy: how often a timed-out PDU send is
/// attempted again.
#[derive(Debug, Copy, Clone, PartialEq, Eq, Structural)]
pub enum RetryBehaviour {
    /// Do not retry timed-out sends: a timeout surfaces immediately.
    Never,
    /// Resend a PDU up to the given number of times, then surface the
    /// timeout.
    Count(usize),
    /// Resend forever — in practice, the largest possible retry count. This
    /// can soft-lock a program when the cable is unplugged; a bounded count
    /// is usually preferable.
    Forever,
}

impl Default for RetryBehaviour {
    /// Timed-out sends are not retried.
    fn default() -> (r: Self)
        ensures
            r == RetryBehaviour::Never,
    {
        RetryBehaviour::Never
    }
}

impl RetryBehaviour {
    /// The number of timeout-triggered resends this policy allows.
    pub fn retry_count(&self) -> (r: usize)
        ensures
            r == match *self {
                RetryBehaviour::Never => 0usize,
                RetryBehaviour::Count(n) => n,
                RetryBehaviour::Forever => usize::MAX,
            },
    {
        match self {
            RetryBehaviour::Never => 0,
            RetryBehaviour::Count(n) => *n,
            RetryBehaviour::Forever => usize::MAX,
        }
    }
}

/// Configuration passed to the main device.
#[derive(Debug, Copy, Clone, PartialEq, Eq, Structural)]
pub struct MainDeviceConfig {
    /// The number of FRMW frames sent during the static phase of
    /// distributed-clock synchronisation. Zero disables static sync.
    pub dc_static_sync_iterations: u32,
    /// The network retry behaviour for timed-out PDUs.
    pub retry_behaviour: RetryBehaviour,
}

impl Default for MainDeviceConfig {
    /// Ten thousand static-sync iterations and no retries.
    fn default() -> (r: Self)
        ensures
            r.dc_static_sync_iterations == 10000,
            r.retry_behaviour == RetryBehaviour::Never,
    {
        MainDeviceConfig { dc_static_sync_iterations: 10000, retry_behaviour: RetryBehaviour::Never }
    }
}

} // verus!
