//! Runtime settings of the distributed-data extension.
//!
//! The delta-propagation interval defaults to a fifth of the gossip interval,
//! but never less than 200 ms; an explicit override wins.
use vstd::prelude::*;

use std::time::Duration;

verus! {

/// Divisor that derives the delta interval from the gossip interval.
pub const DELTA_GOSSIP_INTERVAL_DIVISOR: u32 = 5;

/// Lower bound, in milliseconds, of a derived delta interval.
pub const MIN_DERIVED_DELTA_PROPAGATION_MILLIS: u64 = 200;

/// Total nanoseconds held by a duration (`Duration::as_nanos`).
pub uninterp spec fn duration_nanos(d: Duration) -> u128;

/// `Duration::as_nanos`: the total number of whole nanoseconds of `d`.
#[verifier::external_body]
pub(crate) fn nanos_of(d: &Duration) -> (r: u128)
    ensures
        r == duration_nanos(*d),
{
    d.as_nanos()
}

/// `Duration::from_secs`: a duration of `secs` whole seconds.
#[verifier::external_body]
pub(crate) fn duration_from_secs(secs: u64) -> (r: Duration)
    ensures
        duration_nanos(r) == secs * 1_000_000_000,
{
    Duration::from_secs(secs)
}

/// `Duration::from_millis`: a duration of `millis` milliseconds.
#[verifier::external_body]
pub(crate) fn duration_from_millis(millis: u64) -> (r: Duration)
    ensures
        duration_nanos(r) == millis * 1_000_000,
{
    Duration::from_millis(millis)
}

/// `Duration::as_secs`: the whole seconds of `d`.
#[verifier::external_body]
fn duration_secs(d: &Duration) -> (r: u64)
    ensures
        r == duration_nanos(*d) / 1_000_000_000,
{
    d.as_secs()
}

/// `Duration::subsec_nanos`: the fractional part of `d` in nanoseconds.
#[verifier::external_body]
fn duration_subsec_nanos(d: &Duration) -> (r: u32)
    ensures
        r == duration_nanos(*d) % 1_000_000_000,
{
    d.subsec_nanos()
}

/// `Duration::new`: `secs` whole seconds and `nanos` further nanoseconds,
/// fewer than a second.
#[verifier::external_body]
fn duration_new(secs: u64, nanos: u32) -> (r: Duration)
    requires
        nanos < 1_000_000_000,
    ensures
        duration_nanos(r) == secs * 1_000_000_000 + nanos,
{
    Duration::new(secs, nanos)
}

/// The duration divided by a non-zero integer, rounded down to whole
/// nanoseconds.
pub(crate) fn duration_div(d: Duration, divisor: u32) -> (r: Duration)
    requires
        divisor > 0,
    ensures
        duration_nanos(r) == duration_nanos(d) / (divisor as u128),
{
    let secs = duration_secs(&d);
    let sub = duration_subsec_nanos(&d);
    let ghost n = duration_nanos(d);
    proof {
        vstd::arithmetic::div_mod::lemma_fundamental_div_mod(n as int, 1_000_000_000);
        assert(secs as int * 1_000_000_000 <= u64::MAX as int * 1_000_000_000) by (nonlinear_arith)
            requires
                secs <= u64::MAX,
        ;
    }
    let total: u128 = secs as u128 * 1_000_000_000 + sub as u128;
    assert(total == n);
    let q: u128 = total / (divisor as u128);
    proof {
        assert(q <= total) by (nonlinear_arith)
            requires
                q == total / (divisor as u128),
                divisor > 0,
        ;
        assert(q / 1_000_000_000 <= total / 1_000_000_000) by (nonlinear_arith)
            requires
                q <= total,
        ;
        vstd::arithmetic::div_mod::lemma_fundamental_div_mod(q as int, 1_000_000_000);
    }
    duration_new((q / 1_000_000_000) as u64, (q % 1_000_000_000) as u32)
}

/// Which setting was refused, and why.
#[derive(Debug, Clone, Copy, PartialEq, Eq, Structural)]
pub enum InvalidSettingsReason {
    /// The gossip interval was zero.
    ZeroGossipInterval,
    /// An explicit delta-propagation interval was zero.
    ZeroDeltaPropagationInterval,
    /// The shutdown timeout was zero.
    ZeroShutdownTimeout,
}

impl InvalidSettingsReason {
    /// Human-readable description.
    pub fn message(&self) -> (r: &'static str)
        ensures
            r@ == match self {
                InvalidSettingsReason::ZeroGossipInterval => "gossip interval must be greater than zero"@,
                InvalidSettingsReason::ZeroDeltaPropagationInterval =>
                    "delta propagation interval must be greater than zero"@,
                InvalidSettingsReason::ZeroShutdownTimeout => "shutdown timeout must be greater than zero"@,
            },
    {
        match self {
            InvalidSettingsReason::ZeroGossipInterval => "gossip interval must be greater than zero",
            InvalidSettingsReason::ZeroDeltaPropagationInterval =>
                "delta propagation interval must be greater than zero",
            InvalidSettingsReason::ZeroShutdownTimeout => "shutdown timeout must be greater than zero",
        }
    }
}

/// Failure to bootstrap distributed data that the settings themselves decide.
#[derive(Debug, Clone, Copy, PartialEq, Eq, Structural)]
pub enum DistributedDataBootstrapError {
    /// A runtime interval was refused.
    InvalidSettings { reason: InvalidSettingsReason },
    /// The extension was used before it was bound to a running system.
    NotMaterialized,
}

/// Settings of the extension: the wire codecs, the gossip and delta
/// intervals and the shutdown timeout.
pub struct DistributedDataSettings<C> {
    codecs: C,
    gossip_interval: Duration,
    delta_propagation_interval: Option<Duration>,
    shutdown_timeout: Duration,
}

/// The delta interval derived from a gossip interval of `gossip`
/// nanoseconds: a fifth of it, raised to at least 200 ms.
pub open spec fn derived_delta_nanos(gossip: u128) -> int {
    let fifth = gossip / (DELTA_GOSSIP_INTERVAL_DIVISOR as u128);
    let floor = MIN_DERIVED_DELTA_PROPAGATION_MILLIS * 1_000_000;
    if fifth >= floor {
        fifth as int
    } else {
        floor as int
    }
}

impl<C> DistributedDataSettings<C> {
    /// Gossip interval, in nanoseconds.
    pub closed spec fn gossip_nanos(&self) -> u128 {
        duration_nanos(self.gossip_interval)
    }

    /// Explicit delta interval, in nanoseconds, if one was set.
    pub closed spec fn delta_override_nanos(&self) -> Option<u128> {
        match self.delta_propagation_interval {
            Some(d) => Some(duration_nanos(d)),
            None => None,
        }
    }

    /// Shutdown timeout, in nanoseconds.
    pub closed spec fn shutdown_nanos(&self) -> u128 {
        duration_nanos(self.shutdown_timeout)
    }

    /// The codecs the settings were made with.
    pub closed spec fn codecs_spec(&self) -> C {
        self.codecs
    }

    /// Defaults: 2 s gossip, derived delta interval, 3 s shutdown timeout.
    pub fn new(codecs: C) -> (r: Self)
        ensures
            r.gossip_nanos() == 2_000_000_000,
            r.delta_override_nanos() is None,
            r.shutdown_nanos() == 3_000_000_000,
            r.codecs_spec() == codecs,
    {
        DistributedDataSettings {
            codecs,
            gossip_interval: duration_from_secs(2),
            delta_propagation_interval: None,
            shutdown_timeout: duration_from_secs(3),
        }
    }

    /// Replaces the gossip interval.
    pub fn with_gossip_interval(self, value: Duration) -> (r: Self)
        ensures
            r.gossip_nanos() == duration_nanos(value),
            r.delta_override_nanos() == self.delta_override_nanos(),
            r.shutdown_nanos() == self.shutdown_nanos(),
            r.codecs_spec() == self.codecs_spec(),
    {
        DistributedDataSettings { gossip_interval: value, ..self }
    }

    /// Sets an explicit delta-propagation interval.
    pub fn with_delta_propagation_interval(self, value: Duration) -> (r: Self)
        ensures
            r.gossip_nanos() == self.gossip_nanos(),
            r.delta_override_nanos() == Some(duration_nanos(value)),
            r.shutdown_nanos() == self.shutdown_nanos(),
            r.codecs_spec() == self.codecs_spec(),
    {
        DistributedDataSettings { delta_propagation_interval: Some(value), ..self }
    }

    /// Replaces the shutdown timeout.
    pub fn with_shutdown_timeout(self, value: Duration) -> (r: Self)
        ensures
            r.gossip_nanos() == self.gossip_nanos(),
            r.delta_override_nanos() == self.delta_override_nanos(),
            r.shutdown_nanos() == duration_nanos(value),
            r.codecs_spec() == self.codecs_spec(),
    {
        DistributedDataSettings { shutdown_timeout: value, ..self }
    }

    /// The codecs the settings were made with.
    pub fn codecs(&self) -> (r: &C)
        ensures
            *r == self.codecs_spec(),
    {
        &self.codecs
    }

    /// Refuses a zero gossip interval, a zero explicit delta interval and a
    /// zero shutdown timeout, checked in that order.
    pub fn validate(&self) -> (r: Result<(), DistributedDataBootstrapError>)
        ensures
            self.gossip_nanos() == 0 ==> r == Err::<(), _>(DistributedDataBootstrapError::InvalidSettings {
                reason: InvalidSettingsReason::ZeroGossipInterval,
            }),
            self.gossip_nanos() != 0 && self.delta_override_nanos() == Some(0u128) ==> r == Err::<
                (),
                _,
            >(DistributedDataBootstrapError::InvalidSettings {
                reason: InvalidSettingsReason::ZeroDeltaPropagationInterval,
            }),
            self.gossip_nanos() != 0 && self.delta_override_nanos() != Some(0u128)
                && self.shutdown_nanos() == 0 ==> r == Err::<(), _>(
                DistributedDataBootstrapError::InvalidSettings {
                    reason: InvalidSettingsReason::ZeroShutdownTimeout,
                },
            ),
            r is Ok <==> (self.gossip_nanos() != 0 && self.delta_override_nanos() != Some(0u128)
                && self.shutdown_nanos() != 0),
    {
        if nanos_of(&self.gossip_interval) == 0 {
            return Err(
                DistributedDataBootstrapError::InvalidSettings {
                    reason: InvalidSettingsReason::ZeroGossipInterval,
                },
            );
        }
        match &self.delta_propagation_interval {
            Some(d) => {
                if nanos_of(d) == 0 {
                    return Err(
                        DistributedDataBootstrapError::InvalidSettings {
                            reason: InvalidSettingsReason::ZeroDeltaPropagationInterval,
                        },
                    );
                }
            },
            None => {},
        }
        if nanos_of(&self.shutdown_timeout) == 0 {
            return Err(
                DistributedDataBootstrapError::InvalidSettings {
                    reason: InvalidSettingsReason::ZeroShutdownTimeout,
                },
            );
        }
        Ok(())
    }

    /// The explicit delta interval, or else a fifth of the gossip interval
    /// raised to at least 200 ms.
    pub fn effective_delta_propagation_interval(&self) -> (r: Duration)
        ensures
            duration_nanos(r) == match self.delta_override_nanos() {
                Some(n) => n as int,
                None => derived_delta_nanos(self.gossip_nanos()),
            },
    {
        match &self.delta_propagation_interval {
            Some(d) => *d,
            None => {
                let fifth = duration_div(self.gossip_interval, DELTA_GOSSIP_INTERVAL_DIVISOR);
                let floor = duration_from_millis(MIN_DERIVED_DELTA_PROPAGATION_MILLIS);
                if nanos_of(&fifth) >= nanos_of(&floor) {
                    fifth
                } else {
                    floor
                }
            },
        }
    }
}

impl<C: Clone> Clone for DistributedDataSettings<C> {
    fn clone(&self) -> (r: Self)
        ensures
            r.gossip_nanos() == self.gossip_nanos(),
            r.delta_override_nanos() == self.delta_override_nanos(),
            r.shutdown_nanos() == self.shutdown_nanos(),
    {
        DistributedDataSettings {
            codecs: self.codecs.clone(),
            gossip_interval: self.gossip_interval,
            delta_propagation_interval: self.delta_propagation_interval,
            shutdown_timeout: self.shutdown_timeout,
        }
    }
}


/// A derived delta interval is never shorter than 200 ms and never longer
/// than needed: it is a fifth of the gossip interval whenever that is longer.
pub proof fn lemma_derived_delta_bounds(gossip: u128)
    ensures
        derived_delta_nanos(gossip) >= MIN_DERIVED_DELTA_PROPAGATION_MILLIS * 1_000_000,
        gossip / 5 >= 200_000_000 ==> derived_delta_nanos(gossip) == gossip / 5,
{
}
} // verus!
