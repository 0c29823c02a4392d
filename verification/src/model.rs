//! Gateway-Kit domain types. No I/O.

use vstd::prelude::*;

verus! {

/// The one nft table the gateway owns.
pub const NFT_TABLE: &'static str = "gateway_kit";

/// Routing table used for marked tunnel traffic.
pub const POLICY_TABLE_ID: u32 = 51820;

pub const DEFAULT_UI_PORT: u16 = 7676;

pub const TPROXY_PORT: u16 = 7895;

pub const TPROXY_MARK: u32 = 1;

/// Loopback port used to hand LAN DNS from dnsmasq to sing-box.
pub const DNS_PROXY_PORT: u16 = 5353;

/// The view of an optional string.
pub open spec fn opt_view(o: Option<String>) -> Option<Seq<char>> {
    match o {
        Some(s) => Some(s@),
        None => None,
    }
}

/// The views of a list of strings.
pub open spec fn strs_view(v: Seq<String>) -> Seq<Seq<char>> {
    v.map_values(|s: String| s@)
}

#[derive(Debug, Clone, PartialEq, Eq)]
pub enum ValidateError {
    Message(String),
}

impl ValidateError {
    /// The message text.
    pub open spec fn message(self) -> Seq<char> {
        match self {
            ValidateError::Message(m) => m@,
        }
    }

    /// The message text (what `Display` shows).
    pub fn to_message(&self) -> (r: String)
        ensures
            r@ == self.message(),
    {
        match self {
            ValidateError::Message(m) => m.clone(),
        }
    }
}

#[derive(Debug, Clone, Copy, PartialEq, Eq, Structural)]
pub enum ConflictPolicy {
    Block,
    Acknowledge,
}

#[derive(Debug, Clone, Copy, PartialEq, Eq, Structural)]
pub enum OperatingMode {
    Observe,
    Gateway,
}

impl Default for OperatingMode {
    fn default() -> (r: Self)
        ensures
            r == OperatingMode::Observe,
    {
        OperatingMode::Observe
    }
}

#[derive(Debug, Clone, Copy, PartialEq, Eq, Structural)]
pub enum ConflictSeverity {
    Info,
    Warning,
    Blocker,
}

#[derive(Debug, Clone, PartialEq, Eq)]
pub struct SystemConfig {
    pub hostname: String,
    pub timezone: String,
}

impl Default for SystemConfig {
    fn default() -> (r: Self)
        ensures
            r.hostname@ == "gateway"@,
            r.timezone@ == "Asia/Shanghai"@,
    {
        SystemConfig { hostname: "gateway".to_owned(), timezone: "Asia/Shanghai".to_owned() }
    }
}

#[derive(Debug, Clone, PartialEq, Eq)]
pub struct EnvironmentConfig {
    pub conflict_policy: ConflictPolicy,
}

impl Default for EnvironmentConfig {
    fn default() -> (r: Self)
        ensures
            r.conflict_policy == ConflictPolicy::Block,
    {
        EnvironmentConfig { conflict_policy: ConflictPolicy::Block }
    }
}

#[derive(Debug, Clone, PartialEq, Eq)]
pub struct InterfaceConfig {
    pub interface: String,
    pub mac: Option<String>,
    pub address: Option<String>,
    pub gateway: Option<String>,
    pub dns: Vec<String>,
}

impl Default for InterfaceConfig {
    fn default() -> (r: Self)
        ensures
            r.interface@ == Seq::<char>::empty(),
            r.mac is None,
            r.address is None,
            r.gateway is None,
            r.dns@.len() == 0,
    {
        InterfaceConfig {
            interface: String::new(),
            mac: None,
            address: None,
            gateway: None,
            dns: Vec::new(),
        }
    }
}

#[derive(Debug, Clone, PartialEq, Eq)]
pub struct DhcpReservation {
    pub mac: String,
    pub ip: String,
    pub hostname: String,
}

impl Default for DhcpReservation {
    fn default() -> (r: Self)
        ensures
            r.mac@.len() == 0,
            r.ip@.len() == 0,
            r.hostname@.len() == 0,
    {
        DhcpReservation { mac: String::new(), ip: String::new(), hostname: String::new() }
    }
}

#[derive(Debug, Clone, PartialEq, Eq)]
pub struct DhcpConfig {
    pub enabled: bool,
    pub range_start: String,
    pub range_end: String,
    pub lease_time: String,
    pub reservations: Vec<DhcpReservation>,
}

impl Default for DhcpConfig {
    fn default() -> (r: Self)
        ensures
            r.enabled,
            r.range_start@ == "192.168.50.100"@,
            r.range_end@ == "192.168.50.200"@,
            r.lease_time@ == "12h"@,
            r.reservations@.len() == 0,
    {
        DhcpConfig {
            enabled: true,
            range_start: "192.168.50.100".to_owned(),
            range_end: "192.168.50.200".to_owned(),
            lease_time: "12h".to_owned(),
            reservations: Vec::new(),
        }
    }
}

#[derive(Debug, Clone, PartialEq, Eq)]
pub struct PortForward {
    pub enabled: bool,
    pub protocol: String,
    pub wan_port: u16,
    pub lan_ip: String,
    pub lan_port: u16,
}

#[derive(Debug, Clone, PartialEq, Eq)]
pub struct FirewallConfig {
    pub enabled: bool,
    pub table_name: String,
    pub ssh_port: u16,
}

impl Default for FirewallConfig {
    fn default() -> (r: Self)
        ensures
            r.enabled,
            r.table_name@ == NFT_TABLE@,
            r.ssh_port == 22,
    {
        FirewallConfig { enabled: true, table_name: NFT_TABLE.to_owned(), ssh_port: 22 }
    }
}

#[derive(Debug, Clone, PartialEq, Eq)]
pub struct WireGuardConfig {
    pub enabled: bool,
    pub interface: String,
    pub address: String,
    pub listen_port: u16,
    pub peer_endpoint: String,
    pub peer_allowed_ips: String,
}

impl Default for WireGuardConfig {
    fn default() -> (r: Self)
        ensures
            !r.enabled,
            r.interface@ == "wg0"@,
            r.address@.len() == 0,
            r.listen_port == 51820,
            r.peer_endpoint@.len() == 0,
            r.peer_allowed_ips@ == "0.0.0.0/0"@,
    {
        WireGuardConfig {
            enabled: false,
            interface: "wg0".to_owned(),
            address: String::new(),
            listen_port: 51820,
            peer_endpoint: String::new(),
            peer_allowed_ips: "0.0.0.0/0".to_owned(),
        }
    }
}

#[derive(Debug, Clone, PartialEq, Eq)]
pub struct RoutingConfig {
    pub china_direct: bool,
    pub extra_direct_cidrs: Vec<String>,
    pub policy_table_id: u32,
}

impl Default for RoutingConfig {
    fn default() -> (r: Self)
        ensures
            r.china_direct,
            strs_view(r.extra_direct_cidrs@) == seq![
                "10.0.0.0/8"@,
                "172.16.0.0/12"@,
                "192.168.0.0/16"@,
            ],
            r.policy_table_id == POLICY_TABLE_ID,
    {
        let mut cidrs: Vec<String> = Vec::new();
        cidrs.push("10.0.0.0/8".to_owned());
        cidrs.push("172.16.0.0/12".to_owned());
        cidrs.push("192.168.0.0/16".to_owned());
        let r = RoutingConfig {
            china_direct: true,
            extra_direct_cidrs: cidrs,
            policy_table_id: POLICY_TABLE_ID,
        };
        assert(strs_view(r.extra_direct_cidrs@) =~= seq![
            "10.0.0.0/8"@,
            "172.16.0.0/12"@,
            "192.168.0.0/16"@,
        ]);
        r
    }
}

#[derive(Debug, Clone, PartialEq, Eq)]
pub struct UiConfig {
    pub bind: String,
    pub port: u16,
}

impl Default for UiConfig {
    fn default() -> (r: Self)
        ensures
            r.bind@ == "127.0.0.1"@,
            r.port == DEFAULT_UI_PORT,
    {
        UiConfig { bind: "127.0.0.1".to_owned(), port: DEFAULT_UI_PORT }
    }
}

#[derive(Debug, Clone, PartialEq, Eq)]
pub struct AppConfig {
    pub system: SystemConfig,
    pub environment: EnvironmentConfig,
    pub mode: OperatingMode,
    pub wan: InterfaceConfig,
    pub lan: InterfaceConfig,
    pub dhcp: DhcpConfig,
    pub firewall: FirewallConfig,
    pub wireguard: WireGuardConfig,
    pub routing: RoutingConfig,
    pub ui: UiConfig,
    pub port_forwards: Vec<PortForward>,
}

impl AppConfig {
    /// What `AppConfig::default` holds: observe mode, a private WAN/LAN pair,
    /// no DNS server and no NIC names.
    pub open spec fn is_default(self) -> bool {
        &&& self.system.hostname@ == "gateway"@
        &&& self.system.timezone@ == "Asia/Shanghai"@
        &&& self.environment.conflict_policy == ConflictPolicy::Block
        &&& self.mode == OperatingMode::Observe
        &&& self.wan.interface@.len() == 0
        &&& self.wan.mac is None
        &&& opt_view(self.wan.address) == Some("192.168.40.2/24"@)
        &&& opt_view(self.wan.gateway) == Some("192.168.40.1"@)
        &&& self.wan.dns@.len() == 0
        &&& self.lan.interface@.len() == 0
        &&& self.lan.mac is None
        &&& opt_view(self.lan.address) == Some("192.168.50.1/24"@)
        &&& self.lan.gateway is None
        &&& self.lan.dns@.len() == 0
        &&& self.dhcp.enabled
        &&& self.dhcp.range_start@ == "192.168.50.100"@
        &&& self.dhcp.range_end@ == "192.168.50.200"@
        &&& self.dhcp.lease_time@ == "12h"@
        &&& self.dhcp.reservations@.len() == 0
        &&& self.firewall.enabled
        &&& self.firewall.table_name@ == NFT_TABLE@
        &&& self.firewall.ssh_port == 22
        &&& !self.wireguard.enabled
        &&& self.wireguard.interface@ == "wg0"@
        &&& self.wireguard.address@.len() == 0
        &&& self.wireguard.listen_port == 51820
        &&& self.wireguard.peer_endpoint@.len() == 0
        &&& self.wireguard.peer_allowed_ips@ == "0.0.0.0/0"@
        &&& self.routing.china_direct
        &&& strs_view(self.routing.extra_direct_cidrs@) == seq![
            "10.0.0.0/8"@,
            "172.16.0.0/12"@,
            "192.168.0.0/16"@,
        ]
        &&& self.routing.policy_table_id == POLICY_TABLE_ID
        &&& self.ui.bind@ == "127.0.0.1"@
        &&& self.ui.port == DEFAULT_UI_PORT
        &&& self.port_forwards@.len() == 0
    }
}

impl Default for AppConfig {
    fn default() -> (r: Self)
        ensures
            r.is_default(),
    {
        let mut wan = InterfaceConfig::default();
        wan.address = Some("192.168.40.2/24".to_owned());
        wan.gateway = Some("192.168.40.1".to_owned());
        let mut lan = InterfaceConfig::default();
        lan.address = Some("192.168.50.1/24".to_owned());
        AppConfig {
            system: SystemConfig::default(),
            environment: EnvironmentConfig::default(),
            mode: OperatingMode::Observe,
            wan,
            lan,
            dhcp: DhcpConfig::default(),
            firewall: FirewallConfig::default(),
            wireguard: WireGuardConfig::default(),
            routing: RoutingConfig::default(),
            ui: UiConfig::default(),
            port_forwards: Vec::new(),
        }
    }
}

#[derive(Debug, Clone, PartialEq, Eq)]
pub struct ValidationIssue {
    pub id: String,
    pub severity: ConflictSeverity,
    pub detail: String,
}

pub struct ValidationIssueView {
    pub id: Seq<char>,
    pub severity: ConflictSeverity,
    pub detail: Seq<char>,
}

impl View for ValidationIssue {
    type V = ValidationIssueView;

    open spec fn view(&self) -> ValidationIssueView {
        ValidationIssueView { id: self.id@, severity: self.severity, detail: self.detail@ }
    }
}

impl ValidationIssue {
    /// A warning with the given id and detail.
    pub fn warning(id: &str, detail: String) -> (r: Self)
        ensures
            r@ == (ValidationIssueView {
                id: id@,
                severity: ConflictSeverity::Warning,
                detail: detail@,
            }),
    {
        ValidationIssue { id: id.to_owned(), severity: ConflictSeverity::Warning, detail }
    }
}

/// The views of a list of issues.
pub open spec fn issues_view(v: Seq<ValidationIssue>) -> Seq<ValidationIssueView> {
    v.map_values(|i: ValidationIssue| i@)
}

// ---------------------------------------------------------------------------
// Secrets
// ---------------------------------------------------------------------------

#[derive(Debug, Clone, PartialEq, Eq)]
pub struct Secrets {
    pub wireguard_private_key: Option<String>,
    pub wireguard_peer_public_key: Option<String>,
    pub wireguard_preshared_key: Option<String>,
    pub ui_lan_token: Option<String>,
    pub proxy_uri: Option<String>,
}

impl Default for Secrets {
    fn default() -> (r: Self)
        ensures
            r@ == SecretsView::empty(),
    {
        Secrets {
            wireguard_private_key: None,
            wireguard_peer_public_key: None,
            wireguard_preshared_key: None,
            ui_lan_token: None,
            proxy_uri: None,
        }
    }
}

pub struct SecretsView {
    pub wireguard_private_key: Option<Seq<char>>,
    pub wireguard_peer_public_key: Option<Seq<char>>,
    pub wireguard_preshared_key: Option<Seq<char>>,
    pub ui_lan_token: Option<Seq<char>>,
    pub proxy_uri: Option<Seq<char>>,
}

impl SecretsView {
    pub open spec fn empty() -> SecretsView {
        SecretsView {
            wireguard_private_key: None,
            wireguard_peer_public_key: None,
            wireguard_preshared_key: None,
            ui_lan_token: None,
            proxy_uri: None,
        }
    }
}

impl View for Secrets {
    type V = SecretsView;

    open spec fn view(&self) -> SecretsView {
        SecretsView {
            wireguard_private_key: opt_view(self.wireguard_private_key),
            wireguard_peer_public_key: opt_view(self.wireguard_peer_public_key),
            wireguard_preshared_key: opt_view(self.wireguard_preshared_key),
            ui_lan_token: opt_view(self.ui_lan_token),
            proxy_uri: opt_view(self.proxy_uri),
        }
    }
}

/// A partial update of the secrets: an absent field keeps the stored value,
/// an empty one clears it.
#[derive(Debug, Clone, PartialEq, Eq)]
pub struct SecretsPatch {
    pub wireguard_private_key: Option<String>,
    pub wireguard_peer_public_key: Option<String>,
    pub wireguard_preshared_key: Option<String>,
    pub ui_lan_token: Option<String>,
    pub proxy_uri: Option<String>,
}

impl Default for SecretsPatch {
    fn default() -> (r: Self)
        ensures
            r@ == SecretsView::empty(),
    {
        SecretsPatch {
            wireguard_private_key: None,
            wireguard_peer_public_key: None,
            wireguard_preshared_key: None,
            ui_lan_token: None,
            proxy_uri: None,
        }
    }
}

impl View for SecretsPatch {
    type V = SecretsView;

    open spec fn view(&self) -> SecretsView {
        SecretsView {
            wireguard_private_key: opt_view(self.wireguard_private_key),
            wireguard_peer_public_key: opt_view(self.wireguard_peer_public_key),
            wireguard_preshared_key: opt_view(self.wireguard_preshared_key),
            ui_lan_token: opt_view(self.ui_lan_token),
            proxy_uri: opt_view(self.proxy_uri),
        }
    }
}

#[derive(Debug, Clone, Copy, PartialEq, Eq, Structural)]
pub struct SecretsStatus {
    pub wireguard_private_key_present: bool,
    pub wireguard_peer_public_key_present: bool,
    pub wireguard_preshared_key_present: bool,
    pub ui_lan_token_present: bool,
    pub proxy_uri_present: bool,
}

// ---------------------------------------------------------------------------
// Discovery
// ---------------------------------------------------------------------------

#[derive(Debug, Clone, Copy, PartialEq, Eq, Structural)]
pub enum ResourceType {
    Interface,
    Address,
    Route,
    PolicyRule,
    NftTable,
    FirewallBackend,
    Service,
    Port,
    Sysctl,
    File,
}

#[derive(Debug, Clone, Copy, PartialEq, Eq, Structural)]
pub enum ResourceOwner {
    Gateway,
    NetworkManager,
    Networkd,
    Docker,
    Ufw,
    Firewalld,
    User,
    Unknown,
}

#[derive(Debug, Clone, Copy, PartialEq, Eq, Structural)]
pub enum Ownership {
    Managed,
    Observed,
    External,
}

#[derive(Debug, Clone, PartialEq, Eq)]
pub struct ResourceObservation {
    pub resource_id: String,
    pub resource_type: ResourceType,
    pub ownership: Ownership,
    pub owner: ResourceOwner,
    pub summary: String,
}

pub struct ResourceObservationView {
    pub resource_id: Seq<char>,
    pub resource_type: ResourceType,
    pub ownership: Ownership,
    pub owner: ResourceOwner,
    pub summary: Seq<char>,
}

impl View for ResourceObservation {
    type V = ResourceObservationView;

    open spec fn view(&self) -> ResourceObservationView {
        ResourceObservationView {
            resource_id: self.resource_id@,
            resource_type: self.resource_type,
            ownership: self.ownership,
            owner: self.owner,
            summary: self.summary@,
        }
    }
}

#[derive(Debug, Clone, Copy, PartialEq, Eq, Structural)]
pub enum ProbeStatus {
    Detected,
    NotPresent,
    Unavailable,
    Failed,
}

#[derive(Debug, Clone, PartialEq, Eq)]
pub struct ProbeResult {
    pub name: String,
    pub status: ProbeStatus,
    pub detail: String,
}

pub struct ProbeResultView {
    pub name: Seq<char>,
    pub status: ProbeStatus,
    pub detail: Seq<char>,
}

impl View for ProbeResult {
    type V = ProbeResultView;

    open spec fn view(&self) -> ProbeResultView {
        ProbeResultView { name: self.name@, status: self.status, detail: self.detail@ }
    }
}

#[derive(Debug, Clone, PartialEq, Eq)]
pub struct Conflict {
    pub id: String,
    pub severity: ConflictSeverity,
    pub resource_id: String,
    pub title: String,
    pub detail: String,
    pub recommendation: String,
}

pub struct ConflictView {
    pub id: Seq<char>,
    pub severity: ConflictSeverity,
    pub resource_id: Seq<char>,
    pub title: Seq<char>,
    pub detail: Seq<char>,
    pub recommendation: Seq<char>,
}

impl View for Conflict {
    type V = ConflictView;

    open spec fn view(&self) -> ConflictView {
        ConflictView {
            id: self.id@,
            severity: self.severity,
            resource_id: self.resource_id@,
            title: self.title@,
            detail: self.detail@,
            recommendation: self.recommendation@,
        }
    }
}

#[derive(Debug, Clone, PartialEq, Eq)]
pub struct PreflightReport {
    pub observations: Vec<ResourceObservation>,
    pub conflicts: Vec<Conflict>,
    pub probes: Vec<ProbeResult>,
    pub interfaces: Vec<String>,
}

pub struct PreflightReportView {
    pub observations: Seq<ResourceObservationView>,
    pub conflicts: Seq<ConflictView>,
    pub probes: Seq<ProbeResultView>,
    pub interfaces: Seq<Seq<char>>,
}

impl View for PreflightReport {
    type V = PreflightReportView;

    open spec fn view(&self) -> PreflightReportView {
        PreflightReportView {
            observations: self.observations@.map_values(|o: ResourceObservation| o@),
            conflicts: self.conflicts@.map_values(|c: Conflict| c@),
            probes: self.probes@.map_values(|p: ProbeResult| p@),
            interfaces: strs_view(self.interfaces@),
        }
    }
}

impl Default for PreflightReport {
    fn default() -> (r: Self)
        ensures
            r.observations@.len() == 0,
            r.conflicts@.len() == 0,
            r.probes@.len() == 0,
            r.interfaces@.len() == 0,
    {
        PreflightReport {
            observations: Vec::new(),
            conflicts: Vec::new(),
            probes: Vec::new(),
            interfaces: Vec::new(),
        }
    }
}

/// Some conflict is a blocker.
pub open spec fn spec_has_blockers(conflicts: Seq<Conflict>) -> bool {
    exists|i: int| 0 <= i < conflicts.len() && (#[trigger] conflicts[i]).severity
        == ConflictSeverity::Blocker
}

impl PreflightReport {
    /// Whether any conflict blocks gateway apply.
    pub fn has_blockers(&self) -> (r: bool)
        ensures
            r == spec_has_blockers(self.conflicts@),
    {
        let n = self.conflicts.len();
        for i in 0..n
            invariant
                n == self.conflicts@.len(),
                forall|j: int| 0 <= j < i ==> self.conflicts@[j].severity
                    != ConflictSeverity::Blocker,
        {
            if self.conflicts[i].severity == ConflictSeverity::Blocker {
                return true;
            }
        }
        false
    }
}

// ---------------------------------------------------------------------------
// Plans and health
// ---------------------------------------------------------------------------

#[derive(Debug, Clone, Copy, PartialEq, Eq, Structural)]
pub enum PlanStatus {
    ObserveOnly,
    Blocked,
    Ready,
}

#[derive(Debug, Clone, Copy, PartialEq, Eq, Structural)]
pub enum ActionKind {
    WriteFile,
    NftApply,
    Sysctl,
    IpRule,
    Systemctl,
    WgSync,
}

#[derive(Debug, Clone, PartialEq, Eq)]
pub struct PlanAction {
    pub id: String,
    pub kind: ActionKind,
    pub summary: String,
}

pub struct PlanActionView {
    pub id: Seq<char>,
    pub kind: ActionKind,
    pub summary: Seq<char>,
}

impl View for PlanAction {
    type V = PlanActionView;

    open spec fn view(&self) -> PlanActionView {
        PlanActionView { id: self.id@, kind: self.kind, summary: self.summary@ }
    }
}

#[derive(Debug, Clone, PartialEq, Eq)]
pub struct RenderedFile {
    pub relative_path: String,
    pub contents: String,
}

pub struct RenderedFileView {
    pub relative_path: Seq<char>,
    pub contents: Seq<char>,
}

impl View for RenderedFile {
    type V = RenderedFileView;

    open spec fn view(&self) -> RenderedFileView {
        RenderedFileView { relative_path: self.relative_path@, contents: self.contents@ }
    }
}

#[derive(Debug, Clone, PartialEq, Eq)]
pub struct ChangePlan {
    pub status: PlanStatus,
    pub explanation: String,
    pub issues: Vec<ValidationIssue>,
    pub actions: Vec<PlanAction>,
    pub files: Vec<RenderedFile>,
}

pub struct ChangePlanView {
    pub status: PlanStatus,
    pub explanation: Seq<char>,
    pub issues: Seq<ValidationIssueView>,
    pub actions: Seq<PlanActionView>,
    pub files: Seq<RenderedFileView>,
}

impl View for ChangePlan {
    type V = ChangePlanView;

    open spec fn view(&self) -> ChangePlanView {
        ChangePlanView {
            status: self.status,
            explanation: self.explanation@,
            issues: issues_view(self.issues@),
            actions: self.actions@.map_values(|a: PlanAction| a@),
            files: self.files@.map_values(|f: RenderedFile| f@),
        }
    }
}

#[derive(Debug, Clone, Copy, PartialEq, Eq, Structural)]
pub enum HealthStatus {
    Healthy,
    Degraded,
    Unhealthy,
    Observe,
    Blocked,
}

#[derive(Debug, Clone, PartialEq, Eq)]
pub struct HealthSnapshot {
    pub status: HealthStatus,
    pub message: String,
    pub failed_checks: Vec<String>,
    pub notes: Vec<String>,
    pub wan_uplink: String,
    pub tunnel_uplink: String,
}

pub struct HealthSnapshotView {
    pub status: HealthStatus,
    pub message: Seq<char>,
    pub failed_checks: Seq<Seq<char>>,
    pub notes: Seq<Seq<char>>,
    pub wan_uplink: Seq<char>,
    pub tunnel_uplink: Seq<char>,
}

impl View for HealthSnapshot {
    type V = HealthSnapshotView;

    open spec fn view(&self) -> HealthSnapshotView {
        HealthSnapshotView {
            status: self.status,
            message: self.message@,
            failed_checks: strs_view(self.failed_checks@),
            notes: strs_view(self.notes@),
            wan_uplink: self.wan_uplink@,
            tunnel_uplink: self.tunnel_uplink@,
        }
    }
}

/// Disk usage of one mount point.
#[derive(Debug, Clone, PartialEq, Eq)]
pub struct DiskMetric {
    pub mount: String,
    pub total_bytes: u64,
    pub used_bytes: u64,
}

/// Traffic counters of one network interface.
#[derive(Debug, Clone, PartialEq, Eq)]
pub struct NetMetric {
    pub name: String,
    pub rx_bytes: u64,
    pub tx_bytes: u64,
}

#[derive(Debug, Clone, Copy, PartialEq, Eq, Structural)]
pub enum ApplyReason {
    UserConfirm,
    BootRestore,
    Disable,
    Rollback,
}

} // verus!
