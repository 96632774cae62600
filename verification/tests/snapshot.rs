use netlink_bridge::decode::{
    interface_state, AddressAttribute, AddressEntry, AddressMessage, DecodeError, Ipv4Address,
    KernelOperState, LinkAttribute, LinkMessage, MacAddress, NeighborAttribute, NeighborEntry,
    NeighborMessage, FAMILY_IPV4, NEIGHBOR_DESTINATION,
};
use netlink_bridge::error::Error;
use netlink_bridge::leaves::{
    interface_path, push_address_entry, push_address_leaves, push_link_leaves,
    push_neighbor_entry, push_neighbor_leaves, Leaf,
};
use netlink_bridge::snapshot::{Assembler, Reply, Request, Step};

const TOP: &str = "/goldstone-interfaces:interfaces";

fn leaf(path: &str, value: &str) -> Leaf {
    Leaf { path: path.to_string(), value: Some(value.to_string()) }
}

fn link(index: u32, flags: u32, name: &str) -> LinkMessage {
    LinkMessage { index, flags, attributes: vec![LinkAttribute::IfName(name.to_string())] }
}

fn address(index: u32, octets: [u8; 4], prefix_len: u8) -> AddressMessage {
    AddressMessage {
        index,
        family: FAMILY_IPV4,
        prefix_len,
        attributes: vec![AddressAttribute::Address(octets.to_vec())],
    }
}

fn neighbor(ifindex: u32, octets: [u8; 4], mac: Option<[u8; 6]>) -> NeighborMessage {
    let mut attributes = vec![NeighborAttribute::Destination(octets.to_vec())];
    if let Some(mac) = mac {
        attributes.push(NeighborAttribute::LinkLayerAddress(mac.to_vec()));
    }
    NeighborMessage { ifindex, kind: NEIGHBOR_DESTINATION, attributes }
}

fn base_leaves(name: &str, admin: &str) -> Vec<Leaf> {
    let prefix = format!("{}/interface[name='{}']", TOP, name);
    vec![
        leaf(&format!("{}/name", prefix), name),
        Leaf { path: format!("{}/state/oper-status", prefix), value: None },
        leaf(&format!("{}/state/admin-status", prefix), admin),
    ]
}

/// Runs an assembly against a kernel that holds these tables, and records what was asked.
fn pull(
    ipv4_enabled: bool,
    neighbors: &[NeighborMessage],
    links: &[LinkMessage],
    addresses: &dyn Fn(u32) -> Vec<AddressMessage>,
) -> (Vec<Request>, Step) {
    let (mut assembler, mut step) = Assembler::start(TOP, ipv4_enabled);
    let mut asked = Vec::new();
    loop {
        let request = match step {
            Step::Ask(request) => request,
            last => return (asked, last),
        };
        asked.push(request);
        let reply = match request {
            Request::Neighbors => Reply::Neighbors(neighbors.to_vec()),
            Request::Links => Reply::Links(links.to_vec()),
            Request::Addresses { index } => Reply::Addresses(addresses(index)),
        };
        step = assembler.advance(reply);
    }
}

#[test]
fn interface_path_quotes_the_name() {
    assert_eq!(interface_path(TOP, "eth0"), "/goldstone-interfaces:interfaces/interface[name='eth0']");
}

#[test]
fn disabled_assembly_never_asks_for_addresses_or_neighbors() {
    let links = vec![link(1, 1, "lo"), link(2, 0, "eth0"), link(3, 1, "eth1")];
    let neighbors = vec![neighbor(2, [10, 0, 0, 9], None)];
    let (asked, last) = pull(false, &neighbors, &links, &|i| vec![address(i, [10, 0, 0, 1], 24)]);
    assert_eq!(asked, vec![Request::Links]);
    let mut expected = base_leaves("lo", "UP");
    expected.extend(base_leaves("eth0", "DOWN"));
    expected.extend(base_leaves("eth1", "UP"));
    assert_eq!(last, Step::Done(expected));
}

#[test]
fn enabled_assembly_asks_in_order() {
    let links = vec![link(4, 1, "a"), link(9, 1, "b")];
    let (asked, last) = pull(true, &[], &links, &|_| Vec::new());
    assert_eq!(
        asked,
        vec![
            Request::Neighbors,
            Request::Links,
            Request::Addresses { index: 4 },
            Request::Addresses { index: 9 },
        ]
    );
    let mut expected = base_leaves("a", "UP");
    expected.extend(base_leaves("b", "UP"));
    assert_eq!(last, Step::Done(expected));
}

#[test]
fn no_interfaces_give_an_empty_snapshot() {
    assert_eq!(pull(false, &[], &[], &|_| Vec::new()), (vec![Request::Links], Step::Done(vec![])));
    assert_eq!(
        pull(true, &[], &[], &|_| Vec::new()),
        (vec![Request::Neighbors, Request::Links], Step::Done(vec![]))
    );
}

#[test]
fn address_goes_under_its_own_interface_only() {
    let links = vec![link(1, 1, "eth0"), link(2, 1, "eth1")];
    let addresses = |index: u32| {
        if index == 1 {
            vec![address(1, [192, 168, 0, 1], 24)]
        } else {
            Vec::new()
        }
    };
    let (_, last) = pull(true, &[], &links, &addresses);
    let entry = format!(
        "{}/interface[name='eth0']/goldstone-ipv4:ipv4/addresses/address[ip='192.168.0.1']",
        TOP
    );
    let mut expected = base_leaves("eth0", "UP");
    expected.push(leaf(&format!("{}/config/ip", entry), "192.168.0.1"));
    expected.push(leaf(&format!("{}/state/ip", entry), "192.168.0.1"));
    expected.push(leaf(&format!("{}/state/prefix-length", entry), "24"));
    expected.extend(base_leaves("eth1", "UP"));
    assert_eq!(last, Step::Done(expected.clone()));
    let second = format!("{}/interface[name='eth1']", TOP);
    let under_second: Vec<&Leaf> =
        expected.iter().filter(|l| l.path.starts_with(&second)).collect();
    assert_eq!(under_second.len(), 3);
    assert!(under_second.iter().all(|l| !l.path.contains("addresses")));
}

#[test]
fn address_of_another_interface_or_family_is_left_out() {
    let links = vec![link(1, 1, "eth0")];
    let mut v6 = address(1, [10, 0, 0, 3], 64);
    v6.family = 10;
    let answers = vec![address(2, [10, 0, 0, 2], 24), v6, address(1, [10, 0, 0, 1], 8)];
    let (_, last) = pull(true, &[], &links, &|_| answers.clone());
    let entry =
        format!("{}/interface[name='eth0']/goldstone-ipv4:ipv4/addresses/address[ip='10.0.0.1']", TOP);
    let mut expected = base_leaves("eth0", "UP");
    expected.push(leaf(&format!("{}/config/ip", entry), "10.0.0.1"));
    expected.push(leaf(&format!("{}/state/ip", entry), "10.0.0.1"));
    expected.push(leaf(&format!("{}/state/prefix-length", entry), "8"));
    assert_eq!(last, Step::Done(expected));
}

#[test]
fn malformed_address_is_skipped_and_the_rest_goes_on() {
    let links = vec![link(1, 1, "eth0"), link(2, 1, "eth1")];
    let addresses = |index: u32| {
        if index == 1 {
            vec![
                AddressMessage {
                    index: 1,
                    family: FAMILY_IPV4,
                    prefix_len: 24,
                    attributes: vec![AddressAttribute::Other],
                },
                address(1, [10, 0, 0, 1], 24),
            ]
        } else {
            vec![address(2, [10, 0, 0, 2], 16)]
        }
    };
    let (asked, last) = pull(true, &[], &links, &addresses);
    assert_eq!(asked.len(), 4);
    let first =
        format!("{}/interface[name='eth0']/goldstone-ipv4:ipv4/addresses/address[ip='10.0.0.1']", TOP);
    let second =
        format!("{}/interface[name='eth1']/goldstone-ipv4:ipv4/addresses/address[ip='10.0.0.2']", TOP);
    let mut expected = base_leaves("eth0", "UP");
    expected.push(leaf(&format!("{}/config/ip", first), "10.0.0.1"));
    expected.push(leaf(&format!("{}/state/ip", first), "10.0.0.1"));
    expected.push(leaf(&format!("{}/state/prefix-length", first), "24"));
    expected.extend(base_leaves("eth1", "UP"));
    expected.push(leaf(&format!("{}/config/ip", second), "10.0.0.2"));
    expected.push(leaf(&format!("{}/state/ip", second), "10.0.0.2"));
    expected.push(leaf(&format!("{}/state/prefix-length", second), "16"));
    assert_eq!(last, Step::Done(expected));
}

#[test]
fn neighbors_are_filtered_by_interface_and_kind() {
    let links = vec![link(1, 1, "eth0"), link(2, 1, "eth1")];
    let mut other_kind = neighbor(1, [10, 0, 0, 7], None);
    other_kind.kind = 2;
    let malformed =
        NeighborMessage { ifindex: 1, kind: NEIGHBOR_DESTINATION, attributes: Vec::new() };
    let neighbors = vec![
        neighbor(2, [10, 0, 0, 8], None),
        other_kind,
        malformed,
        neighbor(1, [10, 0, 0, 9], Some([0xaa, 0xbb, 0xcc, 0x00, 0x01, 0x02])),
    ];
    let (_, last) = pull(true, &neighbors, &links, &|_| Vec::new());
    let first =
        format!("{}/interface[name='eth0']/goldstone-ipv4:ipv4/neighbors/neighbor[ip='10.0.0.9']", TOP);
    let second =
        format!("{}/interface[name='eth1']/goldstone-ipv4:ipv4/neighbors/neighbor[ip='10.0.0.8']", TOP);
    let mut expected = base_leaves("eth0", "UP");
    expected.push(leaf(&format!("{}/config/ip", first), "10.0.0.9"));
    expected.push(leaf(&format!("{}/state/ip", first), "10.0.0.9"));
    expected.push(leaf(&format!("{}/state/link-layer-address", first), "aa:bb:cc:00:01:02"));
    expected.extend(base_leaves("eth1", "UP"));
    expected.push(leaf(&format!("{}/config/ip", second), "10.0.0.8"));
    expected.push(leaf(&format!("{}/state/ip", second), "10.0.0.8"));
    assert_eq!(last, Step::Done(expected));
}

#[test]
fn addresses_come_before_neighbors() {
    let links = vec![link(5, 0, "e")];
    let neighbors = vec![neighbor(5, [10, 0, 0, 9], None)];
    let (_, last) = pull(true, &neighbors, &links, &|i| vec![address(i, [10, 0, 0, 1], 30)]);
    let paths: Vec<String> = match last {
        Step::Done(leaves) => leaves.into_iter().map(|l| l.path).collect(),
        other => panic!("the pull ended with {:?}", other),
    };
    let prefix = format!("{}/interface[name='e']", TOP);
    assert_eq!(
        paths,
        vec![
            format!("{}/name", prefix),
            format!("{}/state/oper-status", prefix),
            format!("{}/state/admin-status", prefix),
            format!("{}/goldstone-ipv4:ipv4/addresses/address[ip='10.0.0.1']/config/ip", prefix),
            format!("{}/goldstone-ipv4:ipv4/addresses/address[ip='10.0.0.1']/state/ip", prefix),
            format!(
                "{}/goldstone-ipv4:ipv4/addresses/address[ip='10.0.0.1']/state/prefix-length",
                prefix
            ),
            format!("{}/goldstone-ipv4:ipv4/neighbors/neighbor[ip='10.0.0.9']/config/ip", prefix),
            format!("{}/goldstone-ipv4:ipv4/neighbors/neighbor[ip='10.0.0.9']/state/ip", prefix),
        ]
    );
}

#[test]
fn link_leaves_hold_every_reported_field() {
    let message = LinkMessage {
        index: 3,
        flags: 0x1003,
        attributes: vec![
            LinkAttribute::IfName("eth2".to_string()),
            LinkAttribute::OperState(KernelOperState::Dormant),
            LinkAttribute::Mtu(1500),
            LinkAttribute::Address(vec![0, 0x1b, 0x21, 0x0a, 0xff, 0x3c]),
        ],
    };
    let (_, last) = pull(false, &[], &[message], &|_| Vec::new());
    let prefix = format!("{}/interface[name='eth2']", TOP);
    assert_eq!(
        last,
        Step::Done(vec![
            leaf(&format!("{}/name", prefix), "eth2"),
            leaf(&format!("{}/state/oper-status", prefix), "DORMANT"),
            leaf(&format!("{}/state/admin-status", prefix), "UP"),
            leaf(&format!("{}/ethernet/state/mtu", prefix), "1500"),
            leaf(&format!("{}/ethernet/state/mac-address", prefix), "00:1b:21:0a:ff:3c"),
        ])
    );
}

#[test]
fn admin_status_does_not_follow_the_operational_state() {
    let up_but_down = LinkMessage {
        index: 1,
        flags: 1,
        attributes: vec![
            LinkAttribute::IfName("e".to_string()),
            LinkAttribute::OperState(KernelOperState::Down),
        ],
    };
    let down_but_up = LinkMessage {
        index: 2,
        flags: 0,
        attributes: vec![
            LinkAttribute::IfName("f".to_string()),
            LinkAttribute::OperState(KernelOperState::Up),
        ],
    };
    let (_, last) = pull(false, &[], &[up_but_down, down_but_up], &|_| Vec::new());
    let values: Vec<Option<String>> = match last {
        Step::Done(leaves) => leaves.into_iter().map(|l| l.value).collect(),
        other => panic!("the pull ended with {:?}", other),
    };
    let text = |s: &str| Some(s.to_string());
    assert_eq!(
        values,
        vec![text("e"), text("DOWN"), text("UP"), text("f"), text("UP"), text("DOWN")]
    );
}

#[test]
fn undecodable_link_aborts_the_pull() {
    let broken = LinkMessage { index: 2, flags: 1, attributes: vec![LinkAttribute::Mtu(1500)] };
    let links = vec![link(1, 1, "eth0"), broken, link(3, 1, "eth2")];
    let (asked, last) = pull(false, &[], &links, &|_| Vec::new());
    assert_eq!(asked, vec![Request::Links]);
    assert_eq!(last, Step::Failed(Error::Decode(DecodeError::MissingName)));
    let (asked, last) = pull(true, &[], &links, &|_| Vec::new());
    assert_eq!(
        asked,
        vec![Request::Neighbors, Request::Links, Request::Addresses { index: 1 }]
    );
    assert_eq!(last, Step::Failed(Error::Decode(DecodeError::MissingName)));
}

#[test]
fn failed_calls_abort_the_pull() {
    let (mut assembler, first) = Assembler::start(TOP, true);
    assert_eq!(first, Step::Ask(Request::Neighbors));
    assert_eq!(assembler.advance(Reply::Failed), Step::Failed(Error::Internal));

    let (mut assembler, _) = Assembler::start(TOP, true);
    assert_eq!(assembler.advance(Reply::Neighbors(Vec::new())), Step::Ask(Request::Links));
    assert_eq!(assembler.advance(Reply::Failed), Step::Failed(Error::Internal));

    let (mut assembler, _) = Assembler::start(TOP, true);
    assembler.advance(Reply::Neighbors(Vec::new()));
    assert_eq!(
        assembler.advance(Reply::Links(vec![link(1, 1, "eth0")])),
        Step::Ask(Request::Addresses { index: 1 })
    );
    assert_eq!(assembler.advance(Reply::Failed), Step::Failed(Error::Internal));
    // nothing is handed out afterwards
    assert_eq!(assembler.advance(Reply::Addresses(Vec::new())), Step::Failed(Error::Internal));
}

#[test]
fn an_answer_that_was_not_asked_for_aborts_the_pull() {
    let (mut assembler, first) = Assembler::start(TOP, false);
    assert_eq!(first, Step::Ask(Request::Links));
    assert_eq!(assembler.advance(Reply::Neighbors(Vec::new())), Step::Failed(Error::Internal));
    let (mut assembler, _) = Assembler::start(TOP, true);
    assert_eq!(assembler.advance(Reply::Links(Vec::new())), Step::Failed(Error::Internal));
    let (mut assembler, _) = Assembler::start(TOP, false);
    assert_eq!(assembler.advance(Reply::Links(Vec::new())), Step::Done(Vec::new()));
    assert_eq!(assembler.advance(Reply::Links(Vec::new())), Step::Failed(Error::Internal));
}

#[test]
fn leaf_builders_append_behind_what_is_there() {
    let mut out = vec![leaf("/x", "y")];
    let state = interface_state(&link(1, 0, "e")).unwrap();
    push_link_leaves(&mut out, "/p", &state);
    assert_eq!(out.len(), 4);
    assert_eq!(out[0], leaf("/x", "y"));
    assert_eq!(out[1], leaf("/p/name", "e"));
    push_address_leaves(&mut out, "/p", 1, &vec![address(1, [1, 2, 3, 4], 32)]);
    assert_eq!(out.len(), 7);
    assert_eq!(out[6], leaf("/p/goldstone-ipv4:ipv4/addresses/address[ip='1.2.3.4']/state/prefix-length", "32"));
    push_neighbor_leaves(&mut out, "/p", 1, &vec![neighbor(1, [4, 3, 2, 1], None)]);
    assert_eq!(out.len(), 9);
    assert_eq!(out[8], leaf("/p/goldstone-ipv4:ipv4/neighbors/neighbor[ip='4.3.2.1']/state/ip", "4.3.2.1"));
}

#[test]
fn entry_leaves_are_keyed_by_the_address() {
    let mut out = Vec::new();
    let entry = AddressEntry { ip: Ipv4Address { octets: [172, 16, 0, 254] }, prefix_length: 12 };
    push_address_entry(&mut out, "/p", &entry);
    let at = "/p/goldstone-ipv4:ipv4/addresses/address[ip='172.16.0.254']";
    assert_eq!(
        out,
        vec![
            leaf(&format!("{}/config/ip", at), "172.16.0.254"),
            leaf(&format!("{}/state/ip", at), "172.16.0.254"),
            leaf(&format!("{}/state/prefix-length", at), "12"),
        ]
    );
    let mut out = Vec::new();
    let with_mac = NeighborEntry {
        ip: Ipv4Address { octets: [172, 16, 0, 1] },
        link_layer_address: Some(MacAddress { octets: [2, 0, 0, 0, 0, 0x1f] }),
    };
    let without = NeighborEntry { ip: Ipv4Address { octets: [172, 16, 0, 2] }, link_layer_address: None };
    push_neighbor_entry(&mut out, "/p", &with_mac);
    push_neighbor_entry(&mut out, "/p", &without);
    let first = "/p/goldstone-ipv4:ipv4/neighbors/neighbor[ip='172.16.0.1']";
    let second = "/p/goldstone-ipv4:ipv4/neighbors/neighbor[ip='172.16.0.2']";
    assert_eq!(
        out,
        vec![
            leaf(&format!("{}/config/ip", first), "172.16.0.1"),
            leaf(&format!("{}/state/ip", first), "172.16.0.1"),
            leaf(&format!("{}/state/link-layer-address", first), "02:00:00:00:00:1f"),
            leaf(&format!("{}/config/ip", second), "172.16.0.2"),
            leaf(&format!("{}/state/ip", second), "172.16.0.2"),
        ]
    );
}
