use ruburu::net::IpNetwork;

#[test]
fn a_host_lies_within_its_subnet() {
    let host = IpNetwork::host_v4(0xc0a80105);
    assert!(host.is_within(&IpNetwork::V4 { address: 0xc0a80100, prefix: 24 }));
    assert!(host.is_within(&IpNetwork::V4 { address: 0xc0a801ff, prefix: 24 }));
    assert!(!host.is_within(&IpNetwork::V4 { address: 0xc0a80200, prefix: 24 }));
    assert!(host.is_within(&host));
    assert!(!host.is_within(&IpNetwork::host_v4(0xc0a80104)));
}

#[test]
fn the_empty_prefix_holds_every_address_of_its_family() {
    let all = IpNetwork::V4 { address: 0, prefix: 0 };
    assert!(IpNetwork::host_v4(0xffffffff).is_within(&all));
    assert!(!IpNetwork::host_v6(1).is_within(&all));
    let all6 = IpNetwork::V6 { address: 0, prefix: 0 };
    assert!(IpNetwork::host_v6(u128::MAX).is_within(&all6));
}

#[test]
fn a_wider_network_is_not_within_a_narrower() {
    let wide = IpNetwork::V4 { address: 0x0a000000, prefix: 8 };
    let narrow = IpNetwork::V4 { address: 0x0a010000, prefix: 16 };
    assert!(narrow.is_within(&wide));
    assert!(!wide.is_within(&narrow));
}

#[test]
fn v6_networks_compare_their_leading_bits() {
    let net = IpNetwork::V6 { address: 0x2001_0db8 << 96, prefix: 32 };
    assert!(IpNetwork::host_v6((0x2001_0db8 << 96) | 5).is_within(&net));
    assert!(!IpNetwork::host_v6((0x2001_0db9 << 96) | 5).is_within(&net));
    assert!(IpNetwork::host_v6(7).is_within(&IpNetwork::host_v6(7)));
    assert!(!IpNetwork::host_v6(7).is_within(&IpNetwork::host_v6(6)));
}

#[test]
fn validity_bounds_the_prefix() {
    assert!(IpNetwork::V4 { address: 0, prefix: 32 }.is_valid());
    assert!(!IpNetwork::V4 { address: 0, prefix: 33 }.is_valid());
    assert!(IpNetwork::V6 { address: 0, prefix: 128 }.is_valid());
    assert!(!IpNetwork::V6 { address: 0, prefix: 129 }.is_valid());
}
