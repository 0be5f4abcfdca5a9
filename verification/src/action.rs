//! The messages that the components exchange, and the effects that they ask for.
use crate::ipv4::Cidr;
use vstd::prelude::*;

verus! {

/// The tabs, in the order in which they are numbered.
#[derive(Clone, Copy, Debug, PartialEq, Eq, Structural)]
pub enum TabsEnum {
    Discovery,
    Packets,
    Ports,
    Traffic,
}

/// What the keys do.
#[derive(Clone, Copy, Debug, PartialEq, Eq, Structural)]
pub enum Mode {
    /// They are commands.
    Normal,
    /// They edit the input line.
    Input,
}

/// The columns by which the table of hosts can be sorted.
#[derive(Clone, Copy, Debug, PartialEq, Eq, Structural)]
pub enum SortColumn {
    Ip,
    Mac,
    Hostname,
    Vendor,
}

/// A hardware address.
#[derive(Clone, Copy, Debug, PartialEq, Eq, Structural)]
pub struct MacAddr(pub u8, pub u8, pub u8, pub u8, pub u8, pub u8);

/// The sender of a captured ARP packet.
#[derive(Clone, Copy, Debug, PartialEq, Eq, Structural)]
pub struct ArpPacketData {
    pub sender_mac: MacAddr,
    pub sender_ip: u32,
}

/// An address of a network interface.
#[derive(Clone, Copy, Debug, PartialEq, Eq, Structural)]
pub enum InterfaceIp {
    V4(u32),
    V6,
}

/// A network interface: its addresses.
#[derive(Clone, Debug, PartialEq, Eq)]
pub struct Interface {
    pub ips: Vec<InterfaceIp>,
}

impl View for Interface {
    type V = Seq<InterfaceIp>;

    open spec fn view(&self) -> Seq<InterfaceIp> {
        self.ips@
    }
}

/// A message.
#[derive(Clone, Debug, PartialEq, Eq)]
pub enum Action {
    /// Time has passed.
    Tick,
    /// The screen is to be drawn anew.
    Refresh,
    /// The next tab is to be shown.
    Tab,
    /// This tab is shown.
    TabChange(TabsEnum),
    Up,
    Down,
    /// The help key was pressed.
    Help,
    /// The chosen network is to be scanned.
    ScanCidr,
    /// The scan is to be stopped.
    StopScan,
    /// The scan is over.
    ScanComplete,
    /// One address of the scan is done.
    CountIp,
    /// The input line holds no network.
    CidrError,
    /// This host answered.
    PingIpResponded(String),
    /// These are the names of a host that answered.
    IpResolved { ip: String, hostname: String, mac: String },
    /// An ARP packet was captured.
    ArpRecieve(ArpPacketData),
    /// The table is to be sorted by this column.
    SortBy(SortColumn),
    /// This interface is used.
    ActiveInterface(Interface),
    /// The mode is to be changed.
    ModeChange(Mode),
    /// The mode has been changed.
    AppModeChange(Mode),
    /// Anything that is none of the components' business.
    Other,
}

/// What a message says.
pub enum Message {
    Tick,
    Refresh,
    Tab,
    TabChange(TabsEnum),
    Up,
    Down,
    Help,
    ScanCidr,
    StopScan,
    ScanComplete,
    CountIp,
    CidrError,
    PingIpResponded(Seq<char>),
    IpResolved { ip: Seq<char>, hostname: Seq<char>, mac: Seq<char> },
    ArpRecieve(ArpPacketData),
    SortBy(SortColumn),
    ActiveInterface(Seq<InterfaceIp>),
    ModeChange(Mode),
    AppModeChange(Mode),
    Other,
}

impl View for Action {
    type V = Message;

    open spec fn view(&self) -> Message {
        match *self {
            Action::Tick => Message::Tick,
            Action::Refresh => Message::Refresh,
            Action::Tab => Message::Tab,
            Action::TabChange(tab) => Message::TabChange(tab),
            Action::Up => Message::Up,
            Action::Down => Message::Down,
            Action::Help => Message::Help,
            Action::ScanCidr => Message::ScanCidr,
            Action::StopScan => Message::StopScan,
            Action::ScanComplete => Message::ScanComplete,
            Action::CountIp => Message::CountIp,
            Action::CidrError => Message::CidrError,
            Action::PingIpResponded(ip) => Message::PingIpResponded(ip@),
            Action::IpResolved { ip, hostname, mac } => Message::IpResolved {
                ip: ip@,
                hostname: hostname@,
                mac: mac@,
            },
            Action::ArpRecieve(data) => Message::ArpRecieve(data),
            Action::SortBy(column) => Message::SortBy(column),
            Action::ActiveInterface(interface) => Message::ActiveInterface(interface@),
            Action::ModeChange(mode) => Message::ModeChange(mode),
            Action::AppModeChange(mode) => Message::AppModeChange(mode),
            Action::Other => Message::Other,
        }
    }
}

/// Something that a component asks its surroundings to do.
#[derive(Clone, Debug, PartialEq, Eq)]
pub enum Effect {
    /// Send this message.
    Send(Action),
    /// Start the scanner on the addresses of this network, with at most this many workers.
    StartScan { network: Cidr, pool_size: usize },
    /// Tell the scanner to stop.
    StopScan,
}

/// What an effect consists in.
pub enum Request {
    Send(Message),
    StartScan { network: Cidr, pool_size: usize },
    StopScan,
}

impl View for Effect {
    type V = Request;

    open spec fn view(&self) -> Request {
        match *self {
            Effect::Send(action) => Request::Send(action@),
            Effect::StartScan { network, pool_size } => Request::StartScan { network, pool_size },
            Effect::StopScan => Request::StopScan,
        }
    }
}

/// What a list of effects consists in.
pub open spec fn requests(effects: Seq<Effect>) -> Seq<Request> {
    effects.map_values(|e: Effect| e@)
}

/// What an optional message says.
pub open spec fn message(action: Option<Action>) -> Option<Message> {
    match action {
        Some(a) => Some(a@),
        None => None,
    }
}

} // verus!
