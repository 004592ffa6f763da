//! The network manager: the default and secondary interfaces, when each renews its DHCP
//! lease, and the text reports it gives of them.
use vstd::prelude::*;
use vstd::string::StringSliceAdditionalSpecFns;
use crate::bytes::copy_into;
use crate::kernel::e1000::{E1000Error, NetworkConfiguration};
use crate::kernel::igc::IgcError;
use crate::kernel::net::{Ipv4Address, MacAddress};

verus! {

pub const DHCP_TICKS_PER_SECOND: u64 = 100;
pub const DHCP_RENEWAL_RETRY_TICKS: u64 = 100;
pub const NETWORK_RECEIVE_HEADER_LENGTH: usize = 6;
pub const MAX_NETWORK_PAYLOAD_LENGTH: usize = 1024;
pub const MAX_NETWORK_BUFFER_LENGTH: usize = 1030;
pub const NETWORK_INFO_MAX_LENGTH: usize = 320;
pub const NETWORK_INTERFACES_MAX_LENGTH: usize = 1024;
pub const NETWORK_RENEW_MAX_LENGTH: usize = 1024;

/// Why a network request failed: no interface, a caller's buffer too small, or the error of
/// the backend that served it.
#[derive(Debug, Clone, Copy, PartialEq, Eq, Structural)]
pub enum NetworkError {
    Unavailable,
    BufferTooSmall { required: usize, available: usize },
    E1000(E1000Error),
    Igc(IgcError),
}

impl NetworkError {
    /// Nothing was waiting to be received.
    pub fn is_no_packet(self) -> (r: bool)
        ensures
            r == (self == NetworkError::E1000(E1000Error::NoPacket) || self == NetworkError::Igc(
                IgcError::NoPacket,
            )),
    {
        match self {
            NetworkError::E1000(E1000Error::NoPacket) => true,
            NetworkError::Igc(IgcError::NoPacket) => true,
            _ => false,
        }
    }

    /// No interface is there to serve the request, or external networking is off.
    pub fn is_unavailable(self) -> (r: bool)
        ensures
            r == (self == NetworkError::Unavailable || self == NetworkError::E1000(
                E1000Error::ExternalNetworkNotEnabled,
            )),
    {
        match self {
            NetworkError::Unavailable => true,
            NetworkError::E1000(E1000Error::ExternalNetworkNotEnabled) => true,
            _ => false,
        }
    }

    /// The caller's buffer could not hold the answer.
    pub fn is_buffer_too_small(self) -> (r: bool)
        ensures
            r == (self is BufferTooSmall || (self matches NetworkError::E1000(e)
                && e is NetworkBufferTooSmall)),
    {
        match self {
            NetworkError::BufferTooSmall { .. } => true,
            NetworkError::E1000(E1000Error::NetworkBufferTooSmall { .. }) => true,
            _ => false,
        }
    }
}

/// The outcome of renewing every interface's lease on request.
#[derive(Debug, Clone, Copy, PartialEq, Eq, Structural)]
pub struct NetworkRenewalReport {
    pub length: usize,
    pub all_ready: bool,
}

/// Whether the network is ready after a renewal round: the default interface renewed, the
/// secondary one (if any) renewed, and the timer-driven renewal service has run.
pub fn renewal_ready(default_renewed: bool, secondary_renewed: Option<bool>, service_polls: u64) -> (r:
    bool)
    ensures
        r == (default_renewed && (secondary_renewed matches Some(s) ==> s) && service_polls != 0),
{
    let renewals_ready = default_renewed && match secondary_renewed {
        None => true,
        Some(renewed) => renewed,
    };
    renewals_ready && service_polls != 0
}

/// The tick at which a lease of `lease_seconds` obtained at `now` is renewed: half-way through
/// it (at 100 ticks a second), saturating; never (`u64::MAX`) for a lease of zero seconds.
pub open spec fn renewal_deadline_spec(now: u64, lease_seconds: u32) -> u64 {
    if lease_seconds == 0 {
        u64::MAX
    } else {
        let half = (lease_seconds * 100) / 2;
        if now + half > u64::MAX {
            u64::MAX
        } else {
            (now + half) as u64
        }
    }
}

pub fn renewal_deadline(now: u64, lease_seconds: u32) -> (r: u64)
    ensures
        r == renewal_deadline_spec(now, lease_seconds),
{
    if lease_seconds == 0 {
        return u64::MAX;
    }
    let ticks = (lease_seconds as u64) * DHCP_TICKS_PER_SECOND;
    let half = ticks / 2;
    now.saturating_add(half)
}

/// When an interface's lease is next renewed, and how many renewals have succeeded.
#[derive(Debug, Clone, Copy, PartialEq, Eq, Structural)]
pub struct NetworkLeaseState {
    pub next_renew_tick: u64,
    pub renewals: u32,
}

impl NetworkLeaseState {
    /// The state of a lease of `lease_seconds` obtained at `now`.
    pub fn new(lease_seconds: u32, now: u64) -> (r: Self)
        ensures
            r.next_renew_tick == renewal_deadline_spec(now, lease_seconds),
            r.renewals == 0,
    {
        Self { next_renew_tick: renewal_deadline(now, lease_seconds), renewals: 0 }
    }

    /// Whether the lease is due for renewal at `now`; a lease that never expires never is.
    pub fn due(self, now: u64) -> (r: bool)
        ensures
            r == lease_due(self, now),
    {
        self.next_renew_tick != u64::MAX && now >= self.next_renew_tick
    }

    /// Records a successful renewal at `now` that granted `lease_seconds`.
    pub fn renewed(&mut self, now: u64, lease_seconds: u32)
        ensures
            *final(self) == after_renewal(*old(self), now, lease_seconds),
    {
        self.renewals = self.renewals.saturating_add(1);
        self.next_renew_tick = renewal_deadline(now, lease_seconds);
    }

    /// Records a failed renewal at `now`: the next attempt comes a second later.
    pub fn retry(&mut self, now: u64)
        ensures
            *final(self) == after_retry(*old(self), now),
    {
        self.next_renew_tick = now.saturating_add(DHCP_RENEWAL_RETRY_TICKS);
    }
}

/// The lease after a renewal at `now` granted `lease_seconds`: one more renewal (saturating),
/// and the next one half-way through the new lease.
pub open spec fn after_renewal(l: NetworkLeaseState, now: u64, lease_seconds: u32) -> NetworkLeaseState {
    NetworkLeaseState {
        next_renew_tick: renewal_deadline_spec(now, lease_seconds),
        renewals: if l.renewals == u32::MAX {
            u32::MAX
        } else {
            (l.renewals + 1) as u32
        },
    }
}

/// The lease after a renewal at `now` failed: tried again a second later (saturating).
pub open spec fn after_retry(l: NetworkLeaseState, now: u64) -> NetworkLeaseState {
    NetworkLeaseState {
        next_renew_tick: if now + 100 > u64::MAX {
            u64::MAX
        } else {
            (now + 100) as u64
        },
        renewals: l.renewals,
    }
}

/// Whether the lease is due for renewal at `now`.
pub open spec fn lease_due(l: NetworkLeaseState, now: u64) -> bool {
    l.next_renew_tick != u64::MAX && now >= l.next_renew_tick
}

/// The ASCII bytes of `n` in decimal, without leading zeros.
pub open spec fn decimal(n: nat) -> Seq<u8>
    decreases n,
{
    if n < 10 {
        seq![(48 + n) as u8]
    } else {
        decimal(n / 10).push((48 + n % 10) as u8)
    }
}

/// The lower-case hexadecimal digit of `d` (below 16).
pub open spec fn hex_digit(d: nat) -> u8 {
    if d < 10 {
        (48 + d) as u8
    } else {
        (87 + d) as u8
    }
}

/// `b` as two lower-case hexadecimal digits.
pub open spec fn hex_byte(b: u8) -> Seq<u8> {
    seq![hex_digit((b / 16) as nat), hex_digit((b % 16) as nat)]
}

/// Appends the bytes of `s`.
fn push_text(out: &mut Vec<u8>, s: &str)
    ensures
        final(out)@ == old(out)@ + s.spec_bytes(),
{
    let b = s.as_bytes();
    let ghost start = out@;
    let mut i: usize = 0;
    while i < b.len()
        invariant
            i <= b@.len(),
            b@ == s.spec_bytes(),
            out@ == start + b@.take(i as int),
        decreases b@.len() - i,
    {
        out.push(b[i]);
        i = i + 1;
        assert(b@.take(i as int) =~= b@.take(i - 1) + seq![b@[i - 1]]);
    }
    assert(b@.take(i as int) =~= b@);
}

/// Appends `n` in decimal.
fn push_decimal(out: &mut Vec<u8>, n: u64)
    ensures
        final(out)@ == old(out)@ + decimal(n as nat),
    decreases n,
{
    if n >= 10 {
        push_decimal(out, n / 10);
    }
    let digit: u8 = (n % 10) as u8;
    out.push(48 + digit);
    proof {
        if n >= 10 {
            assert(decimal(n as nat) == decimal((n / 10) as nat).push((48 + n % 10) as u8));
        }
    }
    assert(out@ =~= old(out)@ + decimal(n as nat));
}

/// The bytes of the text `s`.
pub open spec fn text(s: &str) -> Seq<u8> {
    s.spec_bytes()
}

/// Appends `b` as two lower-case hexadecimal digits.
fn push_hex_byte(out: &mut Vec<u8>, b: u8)
    ensures
        final(out)@ == old(out)@ + hex_byte(b),
{
    let high: u8 = b / 16;
    let low: u8 = b % 16;
    let h: u8 = if high < 10 { 48 + high } else { 87 + high };
    let l: u8 = if low < 10 { 48 + low } else { 87 + low };
    out.push(h);
    out.push(l);
    assert(out@ =~= old(out)@ + hex_byte(b));
}

/// `name=a.b.c.d ` for the address `a`.
pub open spec fn address_field(name: &str, a: Seq<u8>) -> Seq<u8> {
    text(name) + text("=") + decimal(a[0] as nat) + text(".") + decimal(a[1] as nat) + text(".")
        + decimal(a[2] as nat) + text(".") + decimal(a[3] as nat) + text(" ")
}

/// `mac=xx:xx:xx:xx:xx:xx ` for the MAC address `m`.
pub open spec fn mac_field(m: Seq<u8>) -> Seq<u8> {
    text("mac=") + hex_byte(m[0]) + text(":") + hex_byte(m[1]) + text(":") + hex_byte(m[2]) + text(
        ":",
    ) + hex_byte(m[3]) + text(":") + hex_byte(m[4]) + text(":") + hex_byte(m[5]) + text(" ")
}

fn push_address_field(out: &mut Vec<u8>, name: &str, a: Ipv4Address)
    ensures
        final(out)@ == old(out)@ + address_field(name, a@),
{
    push_text(out, name);
    push_text(out, "=");
    push_decimal(out, a[0] as u64);
    push_text(out, ".");
    push_decimal(out, a[1] as u64);
    push_text(out, ".");
    push_decimal(out, a[2] as u64);
    push_text(out, ".");
    push_decimal(out, a[3] as u64);
    push_text(out, " ");
    assert(out@ =~= old(out)@ + address_field(name, a@));
}

fn push_mac_field(out: &mut Vec<u8>, m: MacAddress)
    ensures
        final(out)@ == old(out)@ + mac_field(m@),
{
    push_text(out, "mac=");
    push_hex_byte(out, m[0]);
    push_text(out, ":");
    push_hex_byte(out, m[1]);
    push_text(out, ":");
    push_hex_byte(out, m[2]);
    push_text(out, ":");
    push_hex_byte(out, m[3]);
    push_text(out, ":");
    push_hex_byte(out, m[4]);
    push_text(out, ":");
    push_hex_byte(out, m[5]);
    push_text(out, " ");
    assert(out@ =~= old(out)@ + mac_field(m@));
}

/// What the manager reads of an interface's driver: its MAC address and its current IPv4
/// configuration.
#[derive(Debug, Clone, Copy, PartialEq, Eq)]
pub struct NetworkInterface {
    pub mac_address: MacAddress,
    pub configuration: NetworkConfiguration,
}

/// A network interface with the driver behind it.
#[derive(Debug, Clone, Copy, PartialEq, Eq)]
pub enum NetworkBackend {
    E1000(NetworkInterface),
    Igc(NetworkInterface),
    Virtio(NetworkInterface),
}

impl NetworkBackend {
    pub open spec fn interface(self) -> NetworkInterface {
        match self {
            NetworkBackend::E1000(i) => i,
            NetworkBackend::Igc(i) => i,
            NetworkBackend::Virtio(i) => i,
        }
    }

    pub open spec fn name_view(self) -> Seq<char> {
        match self {
            NetworkBackend::E1000(_) => "e1000"@,
            NetworkBackend::Igc(_) => "igc"@,
            NetworkBackend::Virtio(_) => "virtio"@,
        }
    }

    pub open spec fn interface_name_view(self) -> Seq<char> {
        match self {
            NetworkBackend::E1000(_) => "e1000e0"@,
            NetworkBackend::Igc(_) => "igc0"@,
            NetworkBackend::Virtio(_) => "virtio0"@,
        }
    }

    /// The same driver with `configuration` in place of its current one.
    pub open spec fn with_configuration(self, configuration: NetworkConfiguration) -> NetworkBackend {
        let i = NetworkInterface { mac_address: self.interface().mac_address, configuration };
        match self {
            NetworkBackend::E1000(_) => NetworkBackend::E1000(i),
            NetworkBackend::Igc(_) => NetworkBackend::Igc(i),
            NetworkBackend::Virtio(_) => NetworkBackend::Virtio(i),
        }
    }

    /// The driver's name.
    pub fn name(&self) -> (r: &'static str)
        ensures
            r@ == self.name_view(),
    {
        match self {
            NetworkBackend::E1000(_) => "e1000",
            NetworkBackend::Igc(_) => "igc",
            NetworkBackend::Virtio(_) => "virtio",
        }
    }

    /// The name of the interface the driver serves.
    pub fn interface_name(&self) -> (r: &'static str)
        ensures
            r@ == self.interface_name_view(),
    {
        match self {
            NetworkBackend::E1000(_) => "e1000e0",
            NetworkBackend::Igc(_) => "igc0",
            NetworkBackend::Virtio(_) => "virtio0",
        }
    }

    pub fn mac_address(&self) -> (r: MacAddress)
        ensures
            r == self.interface().mac_address,
    {
        match self {
            NetworkBackend::E1000(i) => i.mac_address,
            NetworkBackend::Igc(i) => i.mac_address,
            NetworkBackend::Virtio(i) => i.mac_address,
        }
    }

    pub fn configuration(&self) -> (r: NetworkConfiguration)
        ensures
            r == self.interface().configuration,
    {
        match self {
            NetworkBackend::E1000(i) => i.configuration,
            NetworkBackend::Igc(i) => i.configuration,
            NetworkBackend::Virtio(i) => i.configuration,
        }
    }

    /// Puts in the configuration a renewed lease granted.
    pub fn set_configuration(&mut self, configuration: NetworkConfiguration)
        ensures
            *final(self) == old(self).with_configuration(configuration),
    {
        match self {
            NetworkBackend::E1000(i) => i.configuration = configuration,
            NetworkBackend::Igc(i) => i.configuration = configuration,
            NetworkBackend::Virtio(i) => i.configuration = configuration,
        }
    }

    /// Everything the reports show of the interface.
    pub fn snapshot(&self) -> (r: NetworkSnapshot)
        ensures
            r.interface_name@ == self.interface_name_view(),
            r.backend_name@ == self.name_view(),
            r.mac_address == self.interface().mac_address,
            r.address == self.interface().configuration.address,
            r.subnet_mask == self.interface().configuration.subnet_mask,
            r.gateway == self.interface().configuration.gateway,
            r.dns == self.interface().configuration.dns,
            r.dhcp_server == self.interface().configuration.dhcp_server,
            r.lease_seconds == self.interface().configuration.lease_seconds,
            r.dhcp == self.interface().configuration.dhcp,
    {
        let c = self.configuration();
        NetworkSnapshot {
            interface_name: self.interface_name(),
            backend_name: self.name(),
            mac_address: self.mac_address(),
            address: c.address,
            subnet_mask: c.subnet_mask,
            gateway: c.gateway,
            dns: c.dns,
            dhcp_server: c.dhcp_server,
            lease_seconds: c.lease_seconds,
            dhcp: c.dhcp,
        }
    }
}

/// One interface as the reports show it.
#[derive(Debug, Clone, Copy)]
pub struct NetworkSnapshot {
    pub interface_name: &'static str,
    pub backend_name: &'static str,
    pub mac_address: MacAddress,
    pub address: Ipv4Address,
    pub subnet_mask: Ipv4Address,
    pub gateway: Ipv4Address,
    pub dns: Ipv4Address,
    pub dhcp_server: Ipv4Address,
    pub lease_seconds: u32,
    pub dhcp: bool,
}

/// The bytes of the text whose characters are `v`.
pub open spec fn chars_text(v: Seq<char>) -> Seq<u8> {
    vstd::utf8::encode_utf8(v)
}

/// Where the configuration came from.
pub open spec fn source_text(dhcp: bool) -> Seq<u8> {
    if dhcp {
        text("dhcp")
    } else {
        text("static-fallback")
    }
}

/// The MAC address, the five addresses and the lease, as both reports show them.
pub open spec fn address_fields(b: NetworkBackend) -> Seq<u8> {
    let i = b.interface();
    let c = i.configuration;
    mac_field(i.mac_address@) + address_field("ip", c.address@) + address_field("mask", c.subnet_mask@)
        + address_field("gateway", c.gateway@) + address_field("dns", c.dns@) + address_field(
        "dhcp_server",
        c.dhcp_server@,
    ) + text("lease_seconds=") + decimal(c.lease_seconds as nat)
}

fn push_address_fields(out: &mut Vec<u8>, b: &NetworkBackend)
    ensures
        final(out)@ == old(out)@ + address_fields(*b),
{
    let s = b.snapshot();
    push_mac_field(out, s.mac_address);
    push_address_field(out, "ip", s.address);
    push_address_field(out, "mask", s.subnet_mask);
    push_address_field(out, "gateway", s.gateway);
    push_address_field(out, "dns", s.dns);
    push_address_field(out, "dhcp_server", s.dhcp_server);
    push_text(out, "lease_seconds=");
    push_decimal(out, s.lease_seconds as u64);
    assert(out@ =~= old(out)@ + address_fields(*b));
}

/// The report on the default interface: its driver and name, its route, its addresses and its
/// lease.
pub open spec fn info_text(b: NetworkBackend) -> Seq<u8> {
    text("backend=") + chars_text(b.name_view()) + text(" interface=") + chars_text(
        b.interface_name_view(),
    ) + text(" route=default metric=10 ") + address_fields(b) + text(" source=") + source_text(
        b.interface().configuration.dhcp,
    ) + text(" status=ready\n")
}

/// The line of the interface report on one interface.
pub open spec fn interface_line(b: NetworkBackend, default_route: bool, metric: u16) -> Seq<u8> {
    line_head(b) + address_fields(b) + line_tail(b, default_route, metric)
}

pub open spec fn line_head(b: NetworkBackend) -> Seq<u8> {
    text("interface=") + chars_text(b.interface_name_view()) + text(" backend=") + chars_text(
        b.name_view(),
    ) + text(" ")
}

pub open spec fn line_tail(b: NetworkBackend, default_route: bool, metric: u16) -> Seq<u8> {
    text(" state=up route=") + (if default_route {
        text("default")
    } else {
        text("none")
    }) + text(" metric=") + decimal(metric as nat) + text(" source=") + source_text(
        b.interface().configuration.dhcp,
    ) + text(" status=ready\n")
}

fn push_source(out: &mut Vec<u8>, dhcp: bool)
    ensures
        final(out)@ == old(out)@ + source_text(dhcp),
{
    if dhcp {
        push_text(out, "dhcp");
    } else {
        push_text(out, "static-fallback");
    }
}

/// Renders the report on the interface `b`.
pub fn info_report(b: &NetworkBackend) -> (r: Vec<u8>)
    ensures
        r@ == info_text(*b),
{
    let mut out: Vec<u8> = Vec::new();
    push_text(&mut out, "backend=");
    push_text(&mut out, b.name());
    push_text(&mut out, " interface=");
    push_text(&mut out, b.interface_name());
    push_text(&mut out, " route=default metric=10 ");
    push_address_fields(&mut out, b);
    push_text(&mut out, " source=");
    push_source(&mut out, b.configuration().dhcp);
    push_text(&mut out, " status=ready\n");
    assert(out@ =~= info_text(*b));
    out
}

fn push_line_head(out: &mut Vec<u8>, b: &NetworkBackend)
    ensures
        final(out)@ == old(out)@ + line_head(*b),
{
    push_text(out, "interface=");
    push_text(out, b.interface_name());
    push_text(out, " backend=");
    push_text(out, b.name());
    push_text(out, " ");
    assert(out@ =~= old(out)@ + line_head(*b));
}

fn push_line_tail(out: &mut Vec<u8>, b: &NetworkBackend, default_route: bool, metric: u16)
    ensures
        final(out)@ == old(out)@ + line_tail(*b, default_route, metric),
{
    push_text(out, " state=up route=");
    if default_route {
        push_text(out, "default");
    } else {
        push_text(out, "none");
    }
    push_text(out, " metric=");
    push_decimal(out, metric as u64);
    push_text(out, " source=");
    push_source(out, b.configuration().dhcp);
    push_text(out, " status=ready\n");
    assert(out@ =~= old(out)@ + line_tail(*b, default_route, metric));
}

fn push_interface_line(out: &mut Vec<u8>, b: &NetworkBackend, default_route: bool, metric: u16)
    ensures
        final(out)@ == old(out)@ + interface_line(*b, default_route, metric),
{
    push_line_head(out, b);
    push_address_fields(out, b);
    push_line_tail(out, b, default_route, metric);
    assert(out@ =~= old(out)@ + interface_line(*b, default_route, metric));
}

/// An interface under the manager: its driver and its lease.
#[derive(Debug, Clone, Copy, PartialEq, Eq)]
pub struct ManagedInterface {
    pub backend: NetworkBackend,
    pub lease: NetworkLeaseState,
}

/// The lease of an interface taken over at `now`.
pub open spec fn initial_lease(backend: NetworkBackend, now: u64) -> NetworkLeaseState {
    NetworkLeaseState {
        next_renew_tick: renewal_deadline_spec(now, backend.interface().configuration.lease_seconds),
        renewals: 0,
    }
}

/// How a renewal attempt went, as the interface's driver reports it: the configuration the
/// renewed lease granted, or the driver's error as the renewal report shows it.
#[derive(Debug, Clone)]
pub enum RenewalResult {
    Renewed(NetworkConfiguration),
    Failed(Vec<u8>),
}

/// The interface after a renewal attempt at `now`.
pub open spec fn after_attempt(i: ManagedInterface, now: u64, result: RenewalResult) -> ManagedInterface {
    match result {
        RenewalResult::Renewed(c) => ManagedInterface {
            backend: i.backend.with_configuration(c),
            lease: after_renewal(i.lease, now, c.lease_seconds),
        },
        RenewalResult::Failed(_) => ManagedInterface {
            backend: i.backend,
            lease: after_retry(i.lease, now),
        },
    }
}

impl ManagedInterface {
    /// Takes over `backend` at `now`.
    pub fn new(backend: NetworkBackend, now: u64) -> (r: ManagedInterface)
        ensures
            r == (ManagedInterface { backend, lease: initial_lease(backend, now) }),
    {
        let lease_seconds = backend.configuration().lease_seconds;
        ManagedInterface { backend, lease: NetworkLeaseState::new(lease_seconds, now) }
    }

    /// Records how a renewal attempt at `now` went: a renewed lease replaces the configuration
    /// and schedules the next renewal, a failed one is retried a second later.
    pub fn record_renewal(&mut self, now: u64, result: &RenewalResult)
        ensures
            *final(self) == after_attempt(*old(self), now, *result),
    {
        match result {
            RenewalResult::Renewed(c) => {
                self.backend.set_configuration(*c);
                self.lease.renewed(now, c.lease_seconds);
            },
            RenewalResult::Failed(_) => {
                self.lease.retry(now);
            },
        }
    }
}

/// The network manager: the default interface, which carries the default route, an optional
/// secondary one, and how many times the timer-driven renewal service has run.
#[derive(Debug, Clone, Copy, PartialEq, Eq)]
pub struct NetworkManager {
    pub default: ManagedInterface,
    pub secondary: Option<ManagedInterface>,
    pub service_polls: u64,
}

impl NetworkManager {
    pub open spec fn interface_count_spec(self) -> nat {
        if self.secondary is Some {
            2
        } else {
            1
        }
    }

    pub fn interface_count(&self) -> (r: usize)
        ensures
            r == self.interface_count_spec(),
    {
        if self.secondary.is_some() {
            2
        } else {
            1
        }
    }

    pub fn default_interface_name(&self) -> (r: &'static str)
        ensures
            r@ == self.default.backend.interface_name_view(),
    {
        self.default.backend.interface_name()
    }
}

/// Puts `default` and `secondary` under the manager at `now`, each with a fresh lease; the
/// count of service runs carries over from the manager it replaces.
pub fn install_manager(
    manager: &mut Option<NetworkManager>,
    default: NetworkBackend,
    secondary: Option<NetworkBackend>,
    now: u64,
)
    ensures
        *final(manager) == Some(
            NetworkManager {
                default: ManagedInterface { backend: default, lease: initial_lease(default, now) },
                secondary: match secondary {
                    Some(b) => Some(ManagedInterface { backend: b, lease: initial_lease(b, now) }),
                    None => None,
                },
                service_polls: match *old(manager) {
                    Some(m) => m.service_polls,
                    None => 0,
                },
            },
        ),
{
    let service_polls = match manager {
        Some(m) => m.service_polls,
        None => 0,
    };
    let secondary = match secondary {
        Some(b) => Some(ManagedInterface::new(b, now)),
        None => None,
    };
    *manager = Some(
        NetworkManager { default: ManagedInterface::new(default, now), secondary, service_polls },
    );
}

/// The default interface's driver name, if there is a manager.
pub fn backend_name(manager: &Option<NetworkManager>) -> (r: Option<&'static str>)
    ensures
        r is Some == manager is Some,
        manager matches Some(m) ==> r->0@ == m.default.backend.name_view(),
{
    match manager {
        Some(m) => Some(m.default.backend.name()),
        None => None,
    }
}

/// The default interface's name, if there is a manager.
pub fn default_interface_name(manager: &Option<NetworkManager>) -> (r: Option<&'static str>)
    ensures
        r is Some == manager is Some,
        manager matches Some(m) ==> r->0@ == m.default.backend.interface_name_view(),
{
    match manager {
        Some(m) => Some(m.default_interface_name()),
        None => None,
    }
}

/// How many interfaces are under the manager; none without one.
pub fn interface_count(manager: &Option<NetworkManager>) -> (r: usize)
    ensures
        r == (match manager {
            Some(m) => m.interface_count_spec(),
            None => 0,
        }),
{
    match manager {
        Some(m) => m.interface_count(),
        None => 0,
    }
}

/// What a report request does with the caller's buffer: the report goes at its start if it
/// fits, and the buffer is left alone if it does not.
pub open spec fn delivered(
    report: Seq<u8>,
    before: Seq<u8>,
    after: Seq<u8>,
    r: Result<usize, NetworkError>,
) -> bool {
    if report.len() > before.len() {
        &&& r == Err::<usize, NetworkError>(
            NetworkError::BufferTooSmall {
                required: report.len() as usize,
                available: before.len() as usize,
            },
        )
        &&& after == before
    } else {
        &&& r == Ok::<usize, NetworkError>(report.len() as usize)
        &&& after == report + before.skip(report.len() as int)
    }
}

fn deliver(report: &Vec<u8>, buffer: &mut [u8]) -> (r: Result<usize, NetworkError>)
    ensures
        delivered(report@, old(buffer)@, final(buffer)@, r),
{
    if report.len() > buffer.len() {
        return Err(NetworkError::BufferTooSmall { required: report.len(), available: buffer.len() });
    }
    copy_into(buffer, 0, report.as_slice());
    assert(buffer@ =~= report@ + old(buffer)@.skip(report@.len() as int));
    Ok(report.len())
}

/// Writes the report on the default interface into `buffer`; without a manager there is
/// nothing to report.
pub fn network_info(manager: &Option<NetworkManager>, buffer: &mut [u8]) -> (r: Result<
    usize,
    NetworkError,
>)
    ensures
        manager is None ==> r == Err::<usize, NetworkError>(NetworkError::Unavailable)
            && final(buffer)@ == old(buffer)@,
        manager matches Some(m) ==> delivered(
            info_text(m.default.backend),
            old(buffer)@,
            final(buffer)@,
            r,
        ),
{
    match manager {
        None => Err(NetworkError::Unavailable),
        Some(m) => {
            let report = info_report(&m.default.backend);
            deliver(&report, buffer)
        },
    }
}

/// The report on every interface: a header naming the default one and counting them, then a
/// line on the default interface (the default route, metric 10) and one on the secondary
/// interface if there is one (no route, metric 20).
pub open spec fn interfaces_text(m: NetworkManager) -> Seq<u8> {
    text("manager=rustos default=") + chars_text(m.default.backend.interface_name_view()) + text(
        " interfaces=",
    ) + decimal(m.interface_count_spec()) + text(" routes=1 status=ready\n") + interface_line(
        m.default.backend,
        true,
        10,
    ) + match m.secondary {
        Some(i) => interface_line(i.backend, false, 20),
        None => Seq::empty(),
    }
}

/// Renders the report on every interface of `m`.
pub fn interfaces_report(m: &NetworkManager) -> (r: Vec<u8>)
    ensures
        r@ == interfaces_text(*m),
{
    let mut out: Vec<u8> = Vec::new();
    push_text(&mut out, "manager=rustos default=");
    push_text(&mut out, m.default_interface_name());
    push_text(&mut out, " interfaces=");
    push_decimal(&mut out, m.interface_count() as u64);
    push_text(&mut out, " routes=1 status=ready\n");
    push_interface_line(&mut out, &m.default.backend, true, 10);
    match &m.secondary {
        Some(i) => push_interface_line(&mut out, &i.backend, false, 20),
        None => {},
    }
    assert(out@ =~= interfaces_text(*m));
    out
}

/// Writes the report on every interface into `buffer`; without a manager there is nothing to
/// report.
pub fn network_interfaces(manager: &Option<NetworkManager>, buffer: &mut [u8]) -> (r: Result<
    usize,
    NetworkError,
>)
    ensures
        manager is None ==> r == Err::<usize, NetworkError>(NetworkError::Unavailable)
            && final(buffer)@ == old(buffer)@,
        manager matches Some(m) ==> delivered(interfaces_text(*m), old(buffer)@, final(buffer)@, r),
{
    match manager {
        None => Err(NetworkError::Unavailable),
        Some(m) => {
            let report = interfaces_report(m);
            deliver(&report, buffer)
        },
    }
}

/// The line of the renewal report on one interface, after the attempt that gave `result`.
pub open spec fn renewal_line(after: ManagedInterface, result: RenewalResult) -> Seq<u8> {
    text("interface=") + chars_text(after.backend.interface_name_view()) + text(" backend=")
        + chars_text(after.backend.name_view()) + match result {
        RenewalResult::Renewed(c) => text(" result=renewed lease_seconds=") + decimal(
            c.lease_seconds as nat,
        ) + text(" renewals=") + decimal(after.lease.renewals as nat) + text(" status=ready\n"),
        RenewalResult::Failed(error) => text(" result=failed error=") + error@ + text(" renewals=")
            + decimal(after.lease.renewals as nat) + text(" status=degraded\n"),
    }
}

fn push_renewal_line(out: &mut Vec<u8>, after: &ManagedInterface, result: &RenewalResult)
    ensures
        final(out)@ == old(out)@ + renewal_line(*after, *result),
{
    push_text(out, "interface=");
    push_text(out, after.backend.interface_name());
    push_text(out, " backend=");
    push_text(out, after.backend.name());
    match result {
        RenewalResult::Renewed(c) => {
            push_text(out, " result=renewed lease_seconds=");
            push_decimal(out, c.lease_seconds as u64);
            push_text(out, " renewals=");
            push_decimal(out, after.lease.renewals as u64);
            push_text(out, " status=ready\n");
        },
        RenewalResult::Failed(error) => {
            push_text(out, " result=failed error=");
            let mut i: usize = 0;
            let ghost start = out@;
            while i < error.len()
                invariant
                    i <= error@.len(),
                    out@ == start + error@.take(i as int),
                decreases error@.len() - i,
            {
                out.push(error[i]);
                i = i + 1;
                assert(error@.take(i as int) =~= error@.take(i - 1) + seq![error@[i - 1]]);
            }
            assert(error@.take(i as int) =~= error@);
            push_text(out, " renewals=");
            push_decimal(out, after.lease.renewals as u64);
            push_text(out, " status=degraded\n");
        },
    }
    assert(out@ =~= old(out)@ + renewal_line(*after, *result));
}

/// The first line of the renewal report: how many interfaces, how many renewals have succeeded
/// in all, whether the timer-driven service has run, and whether everything is ready.
pub open spec fn renewal_header(interfaces: nat, renewals: nat, timer_active: bool, all_ready: bool) -> Seq<u8> {
    text("manager=rustos interfaces=") + decimal(interfaces) + text(" renewals=") + decimal(renewals)
        + text(" timer_service=") + (if timer_active {
        text("active")
    } else {
        text("inactive")
    }) + text(" status=") + (if all_ready {
        text("ready")
    } else {
        text("degraded")
    }) + text("\n")
}

fn push_renewal_header(out: &mut Vec<u8>, interfaces: usize, renewals: u64, timer_active: bool, all_ready: bool)
    ensures
        final(out)@ == old(out)@ + renewal_header(
            interfaces as nat,
            renewals as nat,
            timer_active,
            all_ready,
        ),
{
    push_text(out, "manager=rustos interfaces=");
    push_decimal(out, interfaces as u64);
    push_text(out, " renewals=");
    push_decimal(out, renewals);
    push_text(out, " timer_service=");
    if timer_active {
        push_text(out, "active");
    } else {
        push_text(out, "inactive");
    }
    push_text(out, " status=");
    if all_ready {
        push_text(out, "ready");
    } else {
        push_text(out, "degraded");
    }
    push_text(out, "\n");
    assert(out@ =~= old(out)@ + renewal_header(
        interfaces as nat,
        renewals as nat,
        timer_active,
        all_ready,
    ));
}

/// The manager after every interface's renewal attempt at `now`.
pub open spec fn renewed_manager(
    m: NetworkManager,
    now: u64,
    default_result: RenewalResult,
    secondary_result: Option<RenewalResult>,
) -> NetworkManager {
    NetworkManager {
        default: after_attempt(m.default, now, default_result),
        secondary: match (m.secondary, secondary_result) {
            (Some(i), Some(r)) => Some(after_attempt(i, now, r)),
            _ => m.secondary,
        },
        service_polls: m.service_polls,
    }
}

/// Whether every interface renewed and the timer-driven service has run.
pub open spec fn renewal_all_ready(
    m: NetworkManager,
    default_result: RenewalResult,
    secondary_result: Option<RenewalResult>,
) -> bool {
    &&& default_result is Renewed
    &&& secondary_result matches Some(r) ==> r is Renewed
    &&& m.service_polls != 0
}

/// The renewal report of the manager `after` the attempts that gave these results.
pub open spec fn renewal_text(
    after: NetworkManager,
    default_result: RenewalResult,
    secondary_result: Option<RenewalResult>,
) -> Seq<u8> {
    renewal_header(
        after.interface_count_spec(),
        (after.default.lease.renewals + match after.secondary {
            Some(i) => i.lease.renewals as nat,
            None => 0,
        }) as nat,
        after.service_polls != 0,
        renewal_all_ready(after, default_result, secondary_result),
    ) + renewal_line(after.default, default_result) + match (after.secondary, secondary_result) {
        (Some(i), Some(r)) => renewal_line(i, r),
        _ => Seq::empty(),
    }
}

/// Records a renewal of every interface at `now`, the drivers having reported these results
/// (one for the secondary interface exactly when there is one), and writes the renewal report
/// into `buffer`. The leases are updated whether or not the report fits; without a manager
/// nothing happens.
pub fn network_renew(
    manager: &mut Option<NetworkManager>,
    now: u64,
    default_result: &RenewalResult,
    secondary_result: &Option<RenewalResult>,
    buffer: &mut [u8],
) -> (r: Result<NetworkRenewalReport, NetworkError>)
    requires
        *old(manager) matches Some(m) ==> (m.secondary is Some <==> secondary_result is Some),
    ensures
        *old(manager) is None ==> r == Err::<NetworkRenewalReport, NetworkError>(
            NetworkError::Unavailable,
        ) && *final(manager) == *old(manager) && final(buffer)@ == old(buffer)@,
        *old(manager) matches Some(m) ==> {
            let after = renewed_manager(m, now, *default_result, *secondary_result);
            let report = renewal_text(after, *default_result, *secondary_result);
            &&& *final(manager) == Some(after)
            &&& delivered(
                report,
                old(buffer)@,
                final(buffer)@,
                match r {
                    Ok(report) => Ok::<usize, NetworkError>(report.length),
                    Err(e) => Err(e),
                },
            )
            &&& r matches Ok(report) ==> report.all_ready == renewal_all_ready(
                m,
                *default_result,
                *secondary_result,
            )
        },
{
    match manager {
        None => Err(NetworkError::Unavailable),
        Some(m) => {
            m.default.record_renewal(now, default_result);
            match (&mut m.secondary, secondary_result) {
                (Some(i), Some(result)) => i.record_renewal(now, result),
                _ => {},
            }
            let default_renewed = match default_result {
                RenewalResult::Renewed(_) => true,
                RenewalResult::Failed(_) => false,
            };
            let secondary_renewed = match secondary_result {
                Some(RenewalResult::Renewed(_)) => Some(true),
                Some(RenewalResult::Failed(_)) => Some(false),
                None => None,
            };
            let all_ready = renewal_ready(default_renewed, secondary_renewed, m.service_polls);
            let secondary_renewals: u64 = match &m.secondary {
                Some(i) => i.lease.renewals as u64,
                None => 0,
            };
            let renewals: u64 = m.default.lease.renewals as u64 + secondary_renewals;
            let mut out: Vec<u8> = Vec::new();
            push_renewal_header(&mut out, m.interface_count(), renewals, m.service_polls != 0, all_ready);
            push_renewal_line(&mut out, &m.default, default_result);
            match (&m.secondary, secondary_result) {
                (Some(i), Some(result)) => push_renewal_line(&mut out, i, result),
                _ => {},
            }
            assert(out@ =~= renewal_text(*m, *default_result, *secondary_result));
            match deliver(&out, buffer) {
                Ok(length) => Ok(NetworkRenewalReport { length, all_ready }),
                Err(e) => Err(e),
            }
        },
    }
}

/// Which interfaces are due for renewal at `now`, the default one first.
#[derive(Debug, Clone, Copy, PartialEq, Eq, Structural)]
pub struct DueRenewals {
    pub default: bool,
    pub secondary: bool,
}

/// One run of the timer-driven renewal service at `now`: counts the run and says which
/// interfaces are due, whose drivers then renew and report through `record_renewal`. Without a
/// manager nothing is counted and nothing is due.
pub fn service_poll(manager: &mut Option<NetworkManager>, now: u64) -> (r: DueRenewals)
    ensures
        *old(manager) is None ==> *final(manager) == *old(manager) && r == (DueRenewals {
            default: false,
            secondary: false,
        }),
        *old(manager) matches Some(m) ==> {
            &&& *final(manager) == Some(
                NetworkManager {
                    service_polls: if m.service_polls == u64::MAX {
                        0
                    } else {
                        (m.service_polls + 1) as u64
                    },
                    ..m
                },
            )
            &&& r.default == lease_due(m.default.lease, now)
            &&& r.secondary == (m.secondary matches Some(i) && lease_due(i.lease, now))
        },
{
    match manager {
        None => DueRenewals { default: false, secondary: false },
        Some(m) => {
            m.service_polls = if m.service_polls == u64::MAX {
                0
            } else {
                m.service_polls + 1
            };
            let default = m.default.lease.due(now);
            let secondary = match &m.secondary {
                Some(i) => i.lease.due(now),
                None => false,
            };
            DueRenewals { default, secondary }
        },
    }
}

} // verus!
