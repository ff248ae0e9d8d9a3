use lazytcp::domain::FilterDimension;

#[test]
fn filter_dimension_all_contains_v1_dimensions_in_order() {
    assert_eq!(
        FilterDimension::ALL,
        [
            FilterDimension::Host,
            FilterDimension::Source,
            FilterDimension::Destination,
            FilterDimension::Port,
            FilterDimension::Protocol,
        ]
    );
}

#[test]
fn filter_dimension_as_str_maps_expected_keywords() {
    assert_eq!(FilterDimension::Host.as_str(), "host");
    assert_eq!(FilterDimension::Source.as_str(), "source");
    assert_eq!(FilterDimension::Destination.as_str(), "destination");
    assert_eq!(FilterDimension::Port.as_str(), "port");
    assert_eq!(FilterDimension::Protocol.as_str(), "protocol");
}

#[test]
fn selectable_dimensions_follow_the_filter_pane_order() {
    let dims = FilterDimension::selectable();
    assert_eq!(dims.len(), 13);
    assert_eq!(dims[0], FilterDimension::Host);
    assert_eq!(dims[3], FilterDimension::Interface);
    assert_eq!(dims[10], FilterDimension::DateTime);
    assert_eq!(dims[12], FilterDimension::IcmpType);
    assert_eq!(FilterDimension::SourcePort.as_str(), "src port");
    assert_eq!(FilterDimension::DestinationPort.as_str(), "dst port");
    assert_eq!(FilterDimension::TcpFlags.as_str(), "tcp flags");
    assert_eq!(FilterDimension::IcmpType.as_str(), "icmp type");
}
