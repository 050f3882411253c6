use beepeeyou::config::SynthConfig;
use beepeeyou::config::DEFAULT_BASE_FREQUENCY_HZ;
use beepeeyou::config::DEFAULT_REFRESH_INTERVAL;
use beepeeyou::config::DEFAULT_SAMPLER_PERIOD_SECS;
use beepeeyou::config::DEFAULT_SCALE;

#[test]
fn standard_config_has_the_documented_constants() {
    let config = SynthConfig::standard();
    assert_eq!(config.scale, 10);
    assert_eq!(config.base_frequency_hz, 220);
    assert_eq!(config.refresh_interval, 1000);
    assert_eq!(config.sampler_period_secs, 1);
    assert_eq!(DEFAULT_SCALE, 10);
    assert_eq!(DEFAULT_BASE_FREQUENCY_HZ, 220);
    assert_eq!(DEFAULT_REFRESH_INTERVAL, 1000);
    assert_eq!(DEFAULT_SAMPLER_PERIOD_SECS, 1);
    assert!(config.is_well_formed());
}

#[test]
fn zero_divisors_are_not_well_formed() {
    let mut config = SynthConfig::standard();
    config.scale = 0;
    assert!(!config.is_well_formed());
    let mut config = SynthConfig::standard();
    config.refresh_interval = 0;
    assert!(!config.is_well_formed());
}

#[test]
fn neutral_control_is_the_scale() {
    assert_eq!(SynthConfig::standard().neutral_control(), 10);
    let config = SynthConfig { scale: 64, base_frequency_hz: 1, refresh_interval: 1, sampler_period_secs: 1 };
    assert_eq!(config.neutral_control(), 64);
}
