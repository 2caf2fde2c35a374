use std::time::Duration;

use kairo_distributed_data::{DistributedDataBootstrapError, DistributedDataSettings, InvalidSettingsReason};

fn settings() -> DistributedDataSettings<()> {
    DistributedDataSettings::new(())
}

#[test]
fn settings_reject_zero_runtime_intervals() {
    assert!(settings().validate().is_ok());
    assert!(matches!(
        settings().with_gossip_interval(Duration::ZERO).validate(),
        Err(DistributedDataBootstrapError::InvalidSettings { .. })
    ));
    assert!(matches!(
        settings().with_shutdown_timeout(Duration::ZERO).validate(),
        Err(DistributedDataBootstrapError::InvalidSettings { .. })
    ));
    assert!(matches!(
        settings()
            .with_delta_propagation_interval(Duration::ZERO)
            .validate(),
        Err(DistributedDataBootstrapError::InvalidSettings { .. })
    ));
}

#[test]
fn settings_derive_pekko_delta_interval_unless_overridden() {
    assert_eq!(
        settings().effective_delta_propagation_interval(),
        Duration::from_millis(400)
    );
    assert_eq!(
        settings()
            .with_gossip_interval(Duration::from_millis(500))
            .effective_delta_propagation_interval(),
        Duration::from_millis(200)
    );
    assert_eq!(
        settings()
            .with_delta_propagation_interval(Duration::from_millis(25))
            .effective_delta_propagation_interval(),
        Duration::from_millis(25)
    );
}

#[test]
fn settings_report_which_interval_is_refused_first() {
    assert_eq!(
        settings()
            .with_gossip_interval(Duration::ZERO)
            .with_shutdown_timeout(Duration::ZERO)
            .validate(),
        Err(DistributedDataBootstrapError::InvalidSettings {
            reason: InvalidSettingsReason::ZeroGossipInterval
        })
    );
    assert_eq!(
        settings()
            .with_delta_propagation_interval(Duration::ZERO)
            .with_shutdown_timeout(Duration::ZERO)
            .validate(),
        Err(DistributedDataBootstrapError::InvalidSettings {
            reason: InvalidSettingsReason::ZeroDeltaPropagationInterval
        })
    );
    assert_eq!(
        settings().with_shutdown_timeout(Duration::ZERO).validate(),
        Err(DistributedDataBootstrapError::InvalidSettings {
            reason: InvalidSettingsReason::ZeroShutdownTimeout
        })
    );
}

#[test]
fn derived_delta_interval_is_a_fifth_of_gossip_above_the_floor() {
    assert_eq!(
        settings()
            .with_gossip_interval(Duration::from_secs(10))
            .effective_delta_propagation_interval(),
        Duration::from_secs(2)
    );
    assert_eq!(
        settings()
            .with_gossip_interval(Duration::from_nanos(1_000_000_007))
            .effective_delta_propagation_interval(),
        Duration::from_nanos(200_000_001)
    );
    assert_eq!(
        settings()
            .with_gossip_interval(Duration::from_millis(1))
            .effective_delta_propagation_interval(),
        Duration::from_millis(200)
    );
}
