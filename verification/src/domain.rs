//! The packet record and the dimensions along which packets are filtered.
use vstd::prelude::*;

verus! {

/// A dimension along which the packet list can be filtered.
#[derive(Clone, Copy, Debug, PartialEq, Eq, Structural)]
pub enum FilterDimension {
    Host,
    Source,
    Destination,
    Interface,
    Port,
    SourcePort,
    DestinationPort,
    Protocol,
    TcpFlags,
    IpVersion,
    DateTime,
    TrafficClass,
    IcmpType,
}

/// The keyword under which a dimension is shown and written in filter
/// expressions.
pub open spec fn dimension_name(d: FilterDimension) -> Seq<char> {
    match d {
        FilterDimension::Host => "host"@,
        FilterDimension::Source => "source"@,
        FilterDimension::Destination => "destination"@,
        FilterDimension::Interface => "interface"@,
        FilterDimension::Port => "port"@,
        FilterDimension::SourcePort => "src port"@,
        FilterDimension::DestinationPort => "dst port"@,
        FilterDimension::Protocol => "protocol"@,
        FilterDimension::TcpFlags => "tcp flags"@,
        FilterDimension::IpVersion => "ip version"@,
        FilterDimension::DateTime => "date time"@,
        FilterDimension::TrafficClass => "traffic class"@,
        FilterDimension::IcmpType => "icmp type"@,
    }
}

/// Every dimension, in the order in which the filter pane lists them.
pub open spec fn selectable_dimensions() -> Seq<FilterDimension> {
    seq![
        FilterDimension::Host,
        FilterDimension::Source,
        FilterDimension::Destination,
        FilterDimension::Interface,
        FilterDimension::Port,
        FilterDimension::SourcePort,
        FilterDimension::DestinationPort,
        FilterDimension::Protocol,
        FilterDimension::TcpFlags,
        FilterDimension::IpVersion,
        FilterDimension::DateTime,
        FilterDimension::TrafficClass,
        FilterDimension::IcmpType,
    ]
}

impl FilterDimension {
    /// The first dimensions that the tool offered: host, source,
    /// destination, port and protocol.
    pub const ALL: [FilterDimension; 5] = [
        FilterDimension::Host,
        FilterDimension::Source,
        FilterDimension::Destination,
        FilterDimension::Port,
        FilterDimension::Protocol,
    ];

    /// Every dimension, in the order in which the filter pane lists them.
    pub fn selectable() -> (r: Vec<FilterDimension>)
        ensures
            r@ == selectable_dimensions(),
    {
        let r = vec![
            FilterDimension::Host,
            FilterDimension::Source,
            FilterDimension::Destination,
            FilterDimension::Interface,
            FilterDimension::Port,
            FilterDimension::SourcePort,
            FilterDimension::DestinationPort,
            FilterDimension::Protocol,
            FilterDimension::TcpFlags,
            FilterDimension::IpVersion,
            FilterDimension::DateTime,
            FilterDimension::TrafficClass,
            FilterDimension::IcmpType,
        ];
        assert(r@ =~= selectable_dimensions());
        r
    }

    pub fn as_str(self) -> (r: &'static str)
        ensures
            r@ == dimension_name(self),
    {
        match self {
            FilterDimension::Host => "host",
            FilterDimension::Source => "source",
            FilterDimension::Destination => "destination",
            FilterDimension::Interface => "interface",
            FilterDimension::Port => "port",
            FilterDimension::SourcePort => "src port",
            FilterDimension::DestinationPort => "dst port",
            FilterDimension::Protocol => "protocol",
            FilterDimension::TcpFlags => "tcp flags",
            FilterDimension::IpVersion => "ip version",
            FilterDimension::DateTime => "date time",
            FilterDimension::TrafficClass => "traffic class",
            FilterDimension::IcmpType => "icmp type",
        }
    }
}

/// The model of a packet: its fields as character sequences.
pub struct SpecPacket {
    pub timestamp: Seq<char>,
    pub interface: Option<Seq<char>>,
    pub source: Seq<char>,
    pub destination: Seq<char>,
    pub protocol: Seq<char>,
    pub length: nat,
    pub summary: Seq<char>,
}

/// One packet as read from tcpdump's text output.
#[derive(Debug, Clone, PartialEq, Eq)]
pub struct PacketSummary {
    pub timestamp: String,
    pub interface: Option<String>,
    pub source: String,
    pub destination: String,
    pub protocol: String,
    pub length: usize,
    pub summary: String,
}

pub open spec fn option_string_view(o: Option<String>) -> Option<Seq<char>> {
    match o {
        Some(s) => Some(s@),
        None => None,
    }
}

impl View for PacketSummary {
    type V = SpecPacket;

    open spec fn view(&self) -> SpecPacket {
        SpecPacket {
            timestamp: self.timestamp@,
            interface: option_string_view(self.interface),
            source: self.source@,
            destination: self.destination@,
            protocol: self.protocol@,
            length: self.length as nat,
            summary: self.summary@,
        }
    }
}

/// The models of a sequence of packets.
pub open spec fn packets_view(ps: Seq<PacketSummary>) -> Seq<SpecPacket> {
    ps.map_values(|p: PacketSummary| p@)
}

impl PacketSummary {
    /// A field-by-field copy with the same model.
    pub fn duplicate(&self) -> (r: PacketSummary)
        ensures
            r@ == self@,
    {
        let interface = match &self.interface {
            Some(i) => Some(i.clone()),
            None => None,
        };
        PacketSummary {
            timestamp: self.timestamp.clone(),
            interface,
            source: self.source.clone(),
            destination: self.destination.clone(),
            protocol: self.protocol.clone(),
            length: self.length,
            summary: self.summary.clone(),
        }
    }
}

} // verus!
