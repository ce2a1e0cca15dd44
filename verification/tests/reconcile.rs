use homebridge_rusty_spotify::config::Config;
use homebridge_rusty_spotify::spotify_accessory::{ServiceType, SpotifyAccessory};
use homebridge_rusty_spotify::spotify_api::{ApiError, AuthError, SpotifyDevice, SpotifyDevices};
use homebridge_rusty_spotify::spotify_platform::{HostCall, SpotifyPlatform, TickStart, REFRESH_RATE};

fn config(refresh_rate: Option<u32>) -> Config {
    Config {
        client_id: "client".to_string(),
        client_secret: "secret".to_string(),
        refresh_token: "refresh".to_string(),
        refresh_rate,
        device_id: None,
        fade_seconds: None,
    }
}

fn device(id: &str) -> SpotifyDevice {
    SpotifyDevice { id: id.to_string(), is_active: true, volume_percent: 40, name: format!("Speaker {}", id) }
}

fn accessory(id: &str, handle: u32) -> SpotifyAccessory<u32> {
    SpotifyAccessory::new(format!("Speaker {}", id), id.to_string(), ServiceType::Light, handle)
}

fn platform_with(entries: &[(&str, u32)]) -> SpotifyPlatform<u32> {
    let mut platform: SpotifyPlatform<u32> = SpotifyPlatform::new(&config(None));
    for (id, handle) in entries {
        assert!(platform.register(accessory(id, *handle)).is_none());
    }
    platform
}

fn ids(platform: &SpotifyPlatform<u32>) -> Vec<String> {
    platform.devices().iter().map(|a| a.get_device_id().to_string()).collect()
}

fn handles(platform: &SpotifyPlatform<u32>) -> Vec<u32> {
    platform.devices().iter().map(|a| *a.get_accessory()).collect()
}

#[test]
fn tick_converges_on_fetched_list() {
    let mut platform = platform_with(&[("A", 1), ("B", 2)]);

    let plan = platform.refresh_devices(Ok(SpotifyDevices { devices: vec![device("B"), device("C")] }));

    // exactly one unregister call, for A
    assert_eq!(plan.unregister.len(), 1);
    assert_eq!(plan.unregister[0].get_device_id(), "A");
    assert_eq!(*plan.unregister[0].get_accessory(), 1);
    // exactly one register call, for C
    assert_eq!(plan.register.len(), 1);
    assert_eq!(plan.register[0].id, "C");
    assert_eq!(plan.register[0].name, "Speaker C");
    // the removal pass is complete before anything is added
    assert_eq!(ids(&platform), vec!["B"]);

    for d in plan.register {
        assert!(platform.register(SpotifyAccessory::new(d.name, d.id, ServiceType::Light, 3)).is_none());
    }
    // the registry is exactly {B, C}, and B is the accessory it was
    assert_eq!(ids(&platform), vec!["B", "C"]);
    assert_eq!(handles(&platform), vec![2, 3]);
}

#[test]
fn failed_poll_changes_nothing() {
    let mut platform = platform_with(&[("A", 1)]);
    for error in [ApiError::Transport, ApiError::Decode, ApiError::Auth(AuthError::RefreshFailed)] {
        let plan = platform.refresh_devices(Err(error));
        assert!(plan.unregister.is_empty());
        assert!(plan.register.is_empty());
        assert_eq!(ids(&platform), vec!["A"]);
    }
}

#[test]
fn empty_poll_unregisters_everything_in_registry_order() {
    let mut platform = platform_with(&[("A", 1), ("B", 2), ("C", 3)]);
    let plan = platform.refresh_devices(Ok(SpotifyDevices { devices: vec![] }));
    let gone: Vec<u32> = plan.unregister.iter().map(|a| *a.get_accessory()).collect();
    assert_eq!(gone, vec![1, 2, 3]);
    assert!(plan.register.is_empty());
    assert!(platform.devices().is_empty());
}

#[test]
fn first_poll_registers_every_device_in_poll_order() {
    let mut platform = platform_with(&[]);
    let plan = platform.refresh_devices(Ok(SpotifyDevices { devices: vec![device("Z"), device("A"), device("M")] }));
    assert!(plan.unregister.is_empty());
    let come: Vec<&str> = plan.register.iter().map(|d| d.id.as_str()).collect();
    assert_eq!(come, vec!["Z", "A", "M"]);
    assert!(platform.devices().is_empty());
}

#[test]
fn device_reported_twice_is_registered_once() {
    let mut platform = platform_with(&[("B", 2)]);
    let mut second_c = device("C");
    second_c.name = "Another name".to_string();
    let plan = platform.refresh_devices(Ok(SpotifyDevices {
        devices: vec![device("C"), device("B"), second_c, device("B"), device("D")],
    }));
    assert!(plan.unregister.is_empty());
    let come: Vec<(&str, &str)> = plan.register.iter().map(|d| (d.id.as_str(), d.name.as_str())).collect();
    assert_eq!(come, vec![("C", "Speaker C"), ("D", "Speaker D")]);
    assert_eq!(ids(&platform), vec!["B"]);
}

#[test]
fn name_change_does_not_remove() {
    let mut platform = platform_with(&[("A", 1)]);
    let mut renamed = device("A");
    renamed.name = "Renamed".to_string();
    let plan = platform.refresh_devices(Ok(SpotifyDevices { devices: vec![renamed] }));
    assert!(plan.unregister.is_empty());
    assert!(plan.register.is_empty());
    assert_eq!(handles(&platform), vec![1]);
    assert_eq!(platform.devices()[0].name, "Speaker A");
}

#[test]
fn identity_is_exact_string_equality() {
    let mut platform = platform_with(&[("abc", 1)]);
    let plan = platform.refresh_devices(Ok(SpotifyDevices { devices: vec![device("ABC"), device("abc ")] }));
    assert_eq!(plan.unregister.len(), 1);
    assert_eq!(plan.unregister[0].get_device_id(), "abc");
    let come: Vec<&str> = plan.register.iter().map(|d| d.id.as_str()).collect();
    assert_eq!(come, vec!["ABC", "abc "]);
}

#[test]
fn register_refuses_a_registered_id() {
    let mut platform = platform_with(&[("A", 1)]);
    let refused = platform.register(accessory("A", 9));
    let refused = refused.expect("a second accessory for A is handed back");
    assert_eq!(*refused.get_accessory(), 9);
    assert_eq!(handles(&platform), vec![1]);
}

#[test]
fn restored_accessories_are_handed_out_once() {
    let mut platform = platform_with(&[("A", 1)]);
    platform.configure_accessory(70);
    platform.configure_accessory(71);

    match platform.start_tick() {
        TickStart::Started { stale } => assert_eq!(stale, vec![70, 71]),
        TickStart::Skipped => panic!("no tick was running"),
    }
    platform.finish_tick();
    match platform.start_tick() {
        TickStart::Started { stale } => assert!(stale.is_empty()),
        TickStart::Skipped => panic!("the first tick had finished"),
    }
    assert_eq!(ids(&platform), vec!["A"]);
}

#[test]
fn remove_cached_leaves_none() {
    let mut platform = platform_with(&[]);
    platform.configure_accessory(5);
    assert_eq!(platform.remove_cached(), vec![5]);
    assert_eq!(platform.remove_cached(), Vec::<u32>::new());
}

#[test]
fn overlapping_tick_is_skipped() {
    let mut platform = platform_with(&[]);
    assert!(!platform.is_ticking());
    assert!(matches!(platform.start_tick(), TickStart::Started { .. }));
    assert!(platform.is_ticking());
    platform.configure_accessory(8);
    // the next tick is due while the first still runs: skipped, and nothing is handed out
    assert!(matches!(platform.start_tick(), TickStart::Skipped));
    assert!(matches!(platform.start_tick(), TickStart::Skipped));
    assert!(platform.is_ticking());
    platform.finish_tick();
    assert!(!platform.is_ticking());
    match platform.start_tick() {
        TickStart::Started { stale } => assert_eq!(stale, vec![8]),
        TickStart::Skipped => panic!("the first tick had finished"),
    }
}

#[test]
fn failed_tick_does_not_stop_the_next() {
    let mut platform = platform_with(&[("A", 1)]);
    assert!(matches!(platform.start_tick(), TickStart::Started { .. }));
    let plan = platform.refresh_devices(Err(ApiError::Auth(AuthError::RefreshFailed)));
    assert!(plan.unregister.is_empty() && plan.register.is_empty());
    platform.finish_tick();
    assert!(matches!(platform.start_tick(), TickStart::Started { .. }));
    let plan = platform.refresh_devices(Ok(SpotifyDevices { devices: vec![device("B")] }));
    assert_eq!(plan.unregister.len(), 1);
    assert_eq!(plan.register.len(), 1);
}

#[test]
fn refresh_rate_defaults_to_ten_seconds() {
    assert_eq!(REFRESH_RATE, 10_000);
    let by_default: SpotifyPlatform<u32> = SpotifyPlatform::new(&config(None));
    assert_eq!(by_default.refresh_rate(), 10_000);
    let configured: SpotifyPlatform<u32> = SpotifyPlatform::new(&config(Some(2_500)));
    assert_eq!(configured.refresh_rate(), 2_500);
}

#[test]
fn device_that_returns_is_registered_anew() {
    let mut platform = platform_with(&[("A", 1)]);
    let plan = platform.refresh_devices(Ok(SpotifyDevices { devices: vec![] }));
    assert_eq!(plan.unregister.len(), 1);
    assert!(platform.devices().is_empty());

    let plan = platform.refresh_devices(Ok(SpotifyDevices { devices: vec![device("A")] }));
    assert!(plan.unregister.is_empty());
    assert_eq!(plan.register.len(), 1);
    assert_eq!(plan.register[0].id, "A");
    assert!(platform.register(accessory("A", 2)).is_none());
    assert_eq!(handles(&platform), vec![2]);
}

fn describe(call: &HostCall<u32>) -> String {
    match call {
        HostCall::Unregister(accessory) => format!("unregister {}", accessory.get_device_id()),
        HostCall::Register(device) => format!("register {}", device.id),
        HostCall::Probe(device_id) => format!("probe {}", device_id),
    }
}

#[test]
fn host_calls_come_pass_by_pass() {
    let mut platform = platform_with(&[("A", 1), ("B", 2), ("C", 3), ("D", 4)]);
    let plan = platform.refresh_devices(Ok(SpotifyDevices {
        devices: vec![device("X"), device("D"), device("B"), device("Y")],
    }));
    let calls = platform.host_calls(plan);
    let trace: Vec<String> = calls.iter().map(describe).collect();
    assert_eq!(
        trace,
        vec![
            "unregister A",
            "unregister C",
            "register X",
            "register Y",
            "probe B",
            "probe D",
            "probe X",
            "probe Y",
        ]
    );
    match &calls[0] {
        HostCall::Unregister(accessory) => assert_eq!(*accessory.get_accessory(), 1),
        other => panic!("expected an unregistration, got {:?}", other),
    }
}

#[test]
fn failed_poll_makes_no_host_call() {
    let mut platform = platform_with(&[("A", 1), ("B", 2)]);
    let plan = platform.refresh_devices(Err(ApiError::Transport));
    assert_eq!(plan.failed, Some(ApiError::Transport));
    assert!(platform.host_calls(plan).is_empty());
}

#[test]
fn poll_without_changes_probes_the_registry() {
    let mut platform = platform_with(&[("A", 1), ("B", 2)]);
    let plan = platform.refresh_devices(Ok(SpotifyDevices { devices: vec![device("B"), device("A")] }));
    assert_eq!(plan.failed, None);
    let trace: Vec<String> = platform.host_calls(plan).iter().map(describe).collect();
    assert_eq!(trace, vec!["probe A", "probe B"]);
}

#[test]
fn accessory_is_found_by_its_device_id() {
    let platform = platform_with(&[("A", 1), ("B", 2)]);
    assert_eq!(platform.accessory("B").map(|a| *a.get_accessory()), Some(2));
    assert_eq!(platform.accessory("A").map(|a| *a.get_accessory()), Some(1));
    assert!(platform.accessory("C").is_none());
    assert!(platform.accessory("a").is_none());
}
