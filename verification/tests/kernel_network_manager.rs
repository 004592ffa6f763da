use rustos::kernel::e1000::NetworkConfiguration;
use rustos::kernel::network_runtime::{
    backend_name, default_interface_name, info_report, install_manager, interface_count,
    network_info, network_interfaces, network_renew, service_poll, DueRenewals, ManagedInterface,
    NetworkBackend, NetworkError, NetworkInterface, NetworkManager, RenewalResult,
};

const E1000_MAC: [u8; 6] = [0x52, 0x54, 0x00, 0x12, 0x34, 0x56];
const IGC_MAC: [u8; 6] = [0x02, 0xab, 0xcd, 0xef, 0x00, 0x0a];

fn leased(address: [u8; 4], lease_seconds: u32) -> NetworkConfiguration {
    NetworkConfiguration {
        address,
        subnet_mask: [255, 255, 255, 0],
        gateway: [192, 168, 1, 1],
        dns: [192, 168, 1, 53],
        dhcp_server: [192, 168, 1, 1],
        lease_seconds,
        dhcp: true,
    }
}

fn e1000_static() -> NetworkBackend {
    NetworkBackend::E1000(NetworkInterface {
        mac_address: E1000_MAC,
        configuration: NetworkConfiguration::static_default(),
    })
}

fn igc_leased() -> NetworkBackend {
    NetworkBackend::Igc(NetworkInterface {
        mac_address: IGC_MAC,
        configuration: leased([192, 168, 1, 20], 600),
    })
}

fn installed(secondary: Option<NetworkBackend>) -> Option<NetworkManager> {
    let mut manager = None;
    install_manager(&mut manager, e1000_static(), secondary, 1_000);
    manager
}

#[test]
fn without_a_manager_nothing_is_available() {
    let mut manager: Option<NetworkManager> = None;
    assert_eq!(backend_name(&manager), None);
    assert_eq!(default_interface_name(&manager), None);
    assert_eq!(interface_count(&manager), 0);
    let mut buffer = [7u8; 64];
    assert_eq!(network_info(&manager, &mut buffer), Err(NetworkError::Unavailable));
    assert_eq!(network_interfaces(&manager, &mut buffer), Err(NetworkError::Unavailable));
    let renewed = network_renew(
        &mut manager,
        5,
        &RenewalResult::Renewed(NetworkConfiguration::static_default()),
        &None,
        &mut buffer,
    );
    assert_eq!(renewed, Err(NetworkError::Unavailable));
    assert_eq!(buffer, [7u8; 64]);
    assert_eq!(service_poll(&mut manager, 5), DueRenewals { default: false, secondary: false });
    assert!(manager.is_none());
}

#[test]
fn installing_names_the_default_interface_and_schedules_leases() {
    let manager = installed(Some(igc_leased()));
    assert_eq!(backend_name(&manager), Some("e1000"));
    assert_eq!(default_interface_name(&manager), Some("e1000e0"));
    assert_eq!(interface_count(&manager), 2);
    let m = manager.unwrap();
    // A static configuration has no lease, so it is never renewed.
    assert_eq!(m.default.lease.next_renew_tick, u64::MAX);
    // Half of 600 seconds at 100 ticks a second.
    assert_eq!(m.secondary.unwrap().lease.next_renew_tick, 1_000 + 30_000);
    assert_eq!(m.service_polls, 0);
    assert_eq!(interface_count(&installed(None)), 1);
}

#[test]
fn info_report_shows_the_default_interface() {
    let manager = installed(None);
    let mut buffer = [0u8; 320];
    let length = network_info(&manager, &mut buffer).unwrap();
    let expected = "backend=e1000 interface=e1000e0 route=default metric=10 \
mac=52:54:00:12:34:56 ip=10.0.2.15 mask=255.255.255.0 gateway=10.0.2.2 dns=10.0.2.3 \
dhcp_server=10.0.2.2 lease_seconds=0 source=static-fallback status=ready\n";
    assert_eq!(core::str::from_utf8(&buffer[..length]).unwrap(), expected);
    assert_eq!(info_report(&e1000_static()), expected.as_bytes().to_vec());
}

#[test]
fn a_report_that_does_not_fit_leaves_the_buffer_alone() {
    let manager = installed(None);
    let required = info_report(&e1000_static()).len();
    let mut buffer = [9u8; 16];
    assert_eq!(
        network_info(&manager, &mut buffer),
        Err(NetworkError::BufferTooSmall { required, available: 16 })
    );
    assert_eq!(buffer, [9u8; 16]);
}

#[test]
fn interfaces_report_lists_both_interfaces() {
    let manager = installed(Some(igc_leased()));
    let mut buffer = [0u8; 1024];
    let length = network_interfaces(&manager, &mut buffer).unwrap();
    let expected = "manager=rustos default=e1000e0 interfaces=2 routes=1 status=ready\n\
interface=e1000e0 backend=e1000 mac=52:54:00:12:34:56 ip=10.0.2.15 mask=255.255.255.0 \
gateway=10.0.2.2 dns=10.0.2.3 dhcp_server=10.0.2.2 lease_seconds=0 state=up route=default \
metric=10 source=static-fallback status=ready\n\
interface=igc0 backend=igc mac=02:ab:cd:ef:00:0a ip=192.168.1.20 mask=255.255.255.0 \
gateway=192.168.1.1 dns=192.168.1.53 dhcp_server=192.168.1.1 lease_seconds=600 state=up \
route=none metric=20 source=dhcp status=ready\n";
    assert_eq!(core::str::from_utf8(&buffer[..length]).unwrap(), expected);
}

#[test]
fn renewal_updates_leases_and_reports_each_interface() {
    let mut manager = installed(Some(igc_leased()));
    let mut buffer = [0u8; 1024];
    let report = network_renew(
        &mut manager,
        2_000,
        &RenewalResult::Renewed(leased([10, 0, 2, 15], 86_400)),
        &Some(RenewalResult::Failed(b"Igc(NoPacket)".to_vec())),
        &mut buffer,
    )
    .unwrap();
    // The timer-driven service has not run yet, so the network is not ready.
    assert!(!report.all_ready);
    let expected = "manager=rustos interfaces=2 renewals=1 timer_service=inactive status=degraded\n\
interface=e1000e0 backend=e1000 result=renewed lease_seconds=86400 renewals=1 status=ready\n\
interface=igc0 backend=igc result=failed error=Igc(NoPacket) renewals=0 status=degraded\n";
    assert_eq!(core::str::from_utf8(&buffer[..report.length]).unwrap(), expected);
    let m = manager.unwrap();
    assert_eq!(m.default.lease.renewals, 1);
    assert_eq!(m.default.lease.next_renew_tick, 2_000 + 4_320_000);
    assert_eq!(m.default.backend.configuration().lease_seconds, 86_400);
    assert_eq!(m.default.backend.mac_address(), E1000_MAC);
    let secondary = m.secondary.unwrap();
    assert_eq!(secondary.lease.renewals, 0);
    assert_eq!(secondary.lease.next_renew_tick, 2_100);
    assert_eq!(secondary.backend, igc_leased());
}

#[test]
fn renewal_is_ready_once_the_service_has_run() {
    let mut manager = installed(None);
    assert_eq!(service_poll(&mut manager, 10), DueRenewals { default: false, secondary: false });
    let mut buffer = [0u8; 256];
    let report = network_renew(
        &mut manager,
        20,
        &RenewalResult::Renewed(leased([10, 0, 2, 15], 60)),
        &None,
        &mut buffer,
    )
    .unwrap();
    assert!(report.all_ready);
    let expected = "manager=rustos interfaces=1 renewals=1 timer_service=active status=ready\n\
interface=e1000e0 backend=e1000 result=renewed lease_seconds=60 renewals=1 status=ready\n";
    assert_eq!(core::str::from_utf8(&buffer[..report.length]).unwrap(), expected);
}

#[test]
fn renewal_records_leases_even_when_the_report_does_not_fit() {
    let mut manager = installed(None);
    let mut buffer = [0u8; 8];
    let result = network_renew(
        &mut manager,
        20,
        &RenewalResult::Failed(b"E1000(NoPacket)".to_vec()),
        &None,
        &mut buffer,
    );
    assert!(matches!(result, Err(NetworkError::BufferTooSmall { available: 8, .. })));
    assert_eq!(manager.unwrap().default.lease.next_renew_tick, 120);
}

#[test]
fn service_poll_counts_runs_and_finds_due_leases() {
    let mut manager = installed(Some(igc_leased()));
    assert_eq!(service_poll(&mut manager, 30_999), DueRenewals { default: false, secondary: false });
    assert_eq!(service_poll(&mut manager, 31_000), DueRenewals { default: false, secondary: true });
    assert_eq!(manager.unwrap().service_polls, 2);
    // Reinstalling keeps the count of service runs.
    install_manager(&mut manager, igc_leased(), None, 0);
    assert_eq!(manager.unwrap().service_polls, 2);
    assert_eq!(backend_name(&manager), Some("igc"));
}

#[test]
fn record_renewal_replaces_the_configuration() {
    let mut interface = ManagedInterface::new(igc_leased(), 0);
    interface.record_renewal(500, &RenewalResult::Renewed(leased([192, 168, 1, 21], 0)));
    assert_eq!(interface.backend.configuration().address, [192, 168, 1, 21]);
    assert_eq!(interface.backend.name(), "igc");
    assert_eq!(interface.lease.next_renew_tick, u64::MAX);
    assert_eq!(interface.lease.renewals, 1);
}
