use crate::text::{decimal_text, hex_pair, push_decimal, push_hex_pair};
use vstd::prelude::*;

verus! {

/// The MTU value by which the kernel says that none is set.
pub const UNSET_MTU: u32 = 65536;

/// The bit of a link's flag word that says that the interface is administratively up.
pub const FLAG_UP: u32 = 1;

/// The operational state of a link as the kernel reports it.
#[derive(Debug, Clone, Copy, PartialEq, Eq, Structural)]
pub enum KernelOperState {
    Unknown,
    NotPresent,
    Down,
    LowerLayerDown,
    Testing,
    Dormant,
    Up,
    Other(u8),
}

/// The operational status of an interface as the management plane sees it.
#[derive(Debug, Clone, Copy, PartialEq, Eq, Structural)]
pub enum OperStatus {
    Up,
    Down,
    Dormant,
}

/// The administrative status of an interface.
#[derive(Debug, Clone, Copy, PartialEq, Eq, Structural)]
pub enum AdminStatus {
    Up,
    Down,
}

/// Why a kernel message could not be decoded.
#[derive(Debug, Clone, Copy, PartialEq, Eq, Structural)]
pub enum DecodeError {
    /// The first attribute of a link message is not the interface name.
    MissingName,
}

impl OperStatus {
    /// The status that stands for a kernel state: up for up, dormant for dormant, and down
    /// for every other state.
    pub open spec fn of(state: KernelOperState) -> OperStatus {
        match state {
            KernelOperState::Up => OperStatus::Up,
            KernelOperState::Dormant => OperStatus::Dormant,
            _ => OperStatus::Down,
        }
    }

    /// The status that stands for a kernel state.
    pub fn from_kernel(state: KernelOperState) -> (r: OperStatus)
        ensures
            r == OperStatus::of(state),
    {
        match state {
            KernelOperState::Up => OperStatus::Up,
            KernelOperState::Dormant => OperStatus::Dormant,
            _ => OperStatus::Down,
        }
    }

    /// The word by which the management plane knows this status.
    pub open spec fn word(self) -> Seq<char> {
        match self {
            OperStatus::Up => "UP"@,
            OperStatus::Down => "DOWN"@,
            OperStatus::Dormant => "DORMANT"@,
        }
    }

    /// The word by which the management plane knows this status.
    pub fn text(&self) -> (r: &'static str)
        ensures
            r@ == self.word(),
    {
        match self {
            OperStatus::Up => "UP",
            OperStatus::Down => "DOWN",
            OperStatus::Dormant => "DORMANT",
        }
    }
}

impl AdminStatus {
    /// The administrative status that the kernel's flag word carries: up exactly if the
    /// "interface up" flag is set in it.
    pub open spec fn of_flags(flags: u32) -> AdminStatus {
        if flags & FLAG_UP != 0 {
            AdminStatus::Up
        } else {
            AdminStatus::Down
        }
    }

    /// The administrative status that the kernel's flag word carries.
    pub fn from_flags(flags: u32) -> (r: AdminStatus)
        ensures
            r == AdminStatus::of_flags(flags),
    {
        if flags & FLAG_UP != 0 {
            AdminStatus::Up
        } else {
            AdminStatus::Down
        }
    }

    /// The word by which the management plane knows this status.
    pub open spec fn word(self) -> Seq<char> {
        match self {
            AdminStatus::Up => "UP"@,
            AdminStatus::Down => "DOWN"@,
        }
    }

    /// The word by which the management plane knows this status.
    pub fn text(&self) -> (r: &'static str)
        ensures
            r@ == self.word(),
    {
        match self {
            AdminStatus::Up => "UP",
            AdminStatus::Down => "DOWN",
        }
    }
}

/// An Ethernet hardware address.
#[derive(Debug, Clone, Copy, PartialEq, Eq)]
pub struct MacAddress {
    pub octets: [u8; 6],
}

/// An IPv4 address.
#[derive(Debug, Clone, Copy, PartialEq, Eq)]
pub struct Ipv4Address {
    pub octets: [u8; 4],
}

/// Six bytes as a hardware address is written: two digits in base sixteen for each, with
/// colons between them.
pub open spec fn mac_text(octets: Seq<u8>) -> Seq<char> {
    hex_pair(octets[0]) + seq![':'] + hex_pair(octets[1]) + seq![':'] + hex_pair(octets[2])
        + seq![':'] + hex_pair(octets[3]) + seq![':'] + hex_pair(octets[4]) + seq![':']
        + hex_pair(octets[5])
}

/// Four bytes as an IPv4 address is written: each in base ten, with dots between them.
pub open spec fn ipv4_text(octets: Seq<u8>) -> Seq<char> {
    decimal_text(octets[0] as nat) + seq!['.'] + decimal_text(octets[1] as nat) + seq!['.']
        + decimal_text(octets[2] as nat) + seq!['.'] + decimal_text(octets[3] as nat)
}

impl View for MacAddress {
    type V = Seq<u8>;

    open spec fn view(&self) -> Seq<u8> {
        self.octets@
    }
}

impl View for Ipv4Address {
    type V = Seq<u8>;

    open spec fn view(&self) -> Seq<u8> {
        self.octets@
    }
}

impl MacAddress {
    /// The address that six bytes give.
    pub fn from_bytes(bytes: &Vec<u8>) -> (r: MacAddress)
        requires
            bytes.len() == 6,
        ensures
            r@ == bytes@,
    {
        let r = MacAddress { octets: [bytes[0], bytes[1], bytes[2], bytes[3], bytes[4], bytes[5]] };
        assert(r@ =~= bytes@);
        r
    }

    /// The address as text, such as `00:1b:21:0a:ff:3c`.
    pub fn text(&self) -> (r: String)
        ensures
            r@ == mac_text(self@),
    {
        proof {
            reveal_strlit(":");
        }
        let mut out = String::new();
        push_hex_pair(&mut out, self.octets[0]);
        out.append(":");
        push_hex_pair(&mut out, self.octets[1]);
        out.append(":");
        push_hex_pair(&mut out, self.octets[2]);
        out.append(":");
        push_hex_pair(&mut out, self.octets[3]);
        out.append(":");
        push_hex_pair(&mut out, self.octets[4]);
        out.append(":");
        push_hex_pair(&mut out, self.octets[5]);
        assert(out@ =~= mac_text(self@));
        out
    }
}

impl Ipv4Address {
    /// The address that four bytes give.
    pub fn from_bytes(bytes: &Vec<u8>) -> (r: Ipv4Address)
        requires
            bytes.len() == 4,
        ensures
            r@ == bytes@,
    {
        let r = Ipv4Address { octets: [bytes[0], bytes[1], bytes[2], bytes[3]] };
        assert(r@ =~= bytes@);
        r
    }

    /// The address as text, such as `192.168.0.1`.
    pub fn text(&self) -> (r: String)
        ensures
            r@ == ipv4_text(self@),
    {
        proof {
            reveal_strlit(".");
        }
        let mut out = String::new();
        push_decimal(&mut out, self.octets[0] as u32);
        out.append(".");
        push_decimal(&mut out, self.octets[1] as u32);
        out.append(".");
        push_decimal(&mut out, self.octets[2] as u32);
        out.append(".");
        push_decimal(&mut out, self.octets[3] as u32);
        assert(out@ =~= ipv4_text(self@));
        out
    }
}

/// One attribute of a kernel link message.
#[derive(Debug, Clone, PartialEq, Eq)]
pub enum LinkAttribute {
    IfName(String),
    OperState(KernelOperState),
    Mtu(u32),
    Address(Vec<u8>),
    /// Any attribute of a kind that the decoder does not read.
    Other,
}

/// The content of a [`LinkAttribute`].
pub enum LinkAttributeView {
    IfName(Seq<char>),
    OperState(KernelOperState),
    Mtu(u32),
    Address(Seq<u8>),
    Other,
}

impl View for LinkAttribute {
    type V = LinkAttributeView;

    open spec fn view(&self) -> LinkAttributeView {
        match self {
            LinkAttribute::IfName(name) => LinkAttributeView::IfName(name@),
            LinkAttribute::OperState(state) => LinkAttributeView::OperState(*state),
            LinkAttribute::Mtu(mtu) => LinkAttributeView::Mtu(*mtu),
            LinkAttribute::Address(bytes) => LinkAttributeView::Address(bytes@),
            LinkAttribute::Other => LinkAttributeView::Other,
        }
    }
}

/// The contents of a list of link attributes.
pub open spec fn link_attributes_view(attributes: Seq<LinkAttribute>) -> Seq<LinkAttributeView> {
    Seq::new(attributes.len(), |i: int| attributes[i]@)
}

/// What a link message says of its interface.
#[derive(Debug, Clone, PartialEq, Eq)]
pub struct LinkInfo {
    pub name: String,
    pub oper_status: Option<OperStatus>,
    pub mtu: Option<u32>,
    pub hw_address: Option<MacAddress>,
}

/// The content of a [`LinkInfo`].
pub struct LinkInfoView {
    pub name: Seq<char>,
    pub oper_status: Option<OperStatus>,
    pub mtu: Option<u32>,
    pub hw_address: Option<Seq<u8>>,
}

/// The bytes of an optional hardware address.
pub open spec fn option_mac_view(mac: Option<MacAddress>) -> Option<Seq<u8>> {
    match mac {
        Some(m) => Some(m@),
        None => None,
    }
}

/// The bytes of an optional IPv4 address.
pub open spec fn option_ip_view(ip: Option<Ipv4Address>) -> Option<Seq<u8>> {
    match ip {
        Some(a) => Some(a@),
        None => None,
    }
}

impl View for LinkInfo {
    type V = LinkInfoView;

    open spec fn view(&self) -> LinkInfoView {
        LinkInfoView {
            name: self.name@,
            oper_status: self.oper_status,
            mtu: self.mtu,
            hw_address: option_mac_view(self.hw_address),
        }
    }
}

/// The operational status that a list of attributes reports: that of its last
/// operational-state attribute.
pub open spec fn reported_status(attributes: Seq<LinkAttributeView>) -> Option<OperStatus>
    decreases attributes.len(),
{
    if attributes.len() == 0 {
        None
    } else {
        match attributes.last() {
            LinkAttributeView::OperState(state) => Some(OperStatus::of(state)),
            _ => reported_status(attributes.drop_last()),
        }
    }
}

/// The MTU that a list of attributes reports: that of its last MTU attribute whose value is
/// not the one that stands for "unset".
pub open spec fn reported_mtu(attributes: Seq<LinkAttributeView>) -> Option<u32>
    decreases attributes.len(),
{
    if attributes.len() == 0 {
        None
    } else {
        match attributes.last() {
            LinkAttributeView::Mtu(mtu) if mtu != UNSET_MTU => Some(mtu),
            _ => reported_mtu(attributes.drop_last()),
        }
    }
}

/// The hardware address that a list of attributes reports: that of its last address
/// attribute of exactly six bytes.
pub open spec fn reported_hw_address(attributes: Seq<LinkAttributeView>) -> Option<Seq<u8>>
    decreases attributes.len(),
{
    if attributes.len() == 0 {
        None
    } else {
        match attributes.last() {
            LinkAttributeView::Address(bytes) if bytes.len() == 6 => Some(bytes),
            _ => reported_hw_address(attributes.drop_last()),
        }
    }
}

/// What a link message's attributes say of its interface. The first attribute has to be the
/// interface name; the others are read in order, and the last of each kind counts.
pub open spec fn link_info_of(attributes: Seq<LinkAttributeView>) -> Result<
    LinkInfoView,
    DecodeError,
> {
    if attributes.len() > 0 && attributes[0] is IfName {
        Ok(
            LinkInfoView {
                name: attributes[0]->IfName_0,
                oper_status: reported_status(attributes.drop_first()),
                mtu: reported_mtu(attributes.drop_first()),
                hw_address: reported_hw_address(attributes.drop_first()),
            },
        )
    } else {
        Err(DecodeError::MissingName)
    }
}

/// The content of what decoding a link message hands back.
pub open spec fn link_result_view(r: Result<LinkInfo, DecodeError>) -> Result<
    LinkInfoView,
    DecodeError,
> {
    match r {
        Ok(info) => Ok(info@),
        Err(e) => Err(e),
    }
}

/// Decodes the attributes of a kernel link message.
///
/// The first attribute has to be the interface name, else the message is refused with
/// `MissingName`. The attributes behind it are read once, in order: an operational state of
/// up gives `Up`, dormant gives `Dormant`, any other gives `Down`; an MTU counts unless it is
/// 65536, which stands for "unset"; a hardware address counts only if it is six bytes long.
/// Where a kind of attribute comes more than once, the last that counts is reported.
/// Attributes of other kinds are passed over.
pub fn get_link_info_from_nlas(attributes: &Vec<LinkAttribute>) -> (r: Result<
    LinkInfo,
    DecodeError,
>)
    ensures
        link_result_view(r) == link_info_of(link_attributes_view(attributes@)),
{
    let ghost all = link_attributes_view(attributes@);
    let n = attributes.len();
    if n == 0 {
        return Err(DecodeError::MissingName);
    }
    let name = match &attributes[0] {
        LinkAttribute::IfName(name) => name.clone(),
        _ => {
            assert(!(all[0] is IfName));
            return Err(DecodeError::MissingName);
        },
    };
    assert(all[0] == LinkAttributeView::IfName(name@));
    let mut oper_status: Option<OperStatus> = None;
    let mut mtu: Option<u32> = None;
    let mut hw_address: Option<MacAddress> = None;
    let mut i: usize = 1;
    proof {
        assert(all.subrange(1, 1) =~= Seq::empty());
    }
    while i < n
        invariant
            n == attributes.len(),
            all == link_attributes_view(attributes@),
            1 <= i <= n,
            oper_status == reported_status(all.subrange(1, i as int)),
            mtu == reported_mtu(all.subrange(1, i as int)),
            option_mac_view(hw_address) == reported_hw_address(all.subrange(1, i as int)),
        decreases n - i,
    {
        proof {
            let seen = all.subrange(1, i + 1);
            assert(seen.last() == attributes[i as int]@);
            assert(seen.drop_last() =~= all.subrange(1, i as int));
        }
        match &attributes[i] {
            LinkAttribute::OperState(state) => {
                oper_status = Some(OperStatus::from_kernel(*state));
            },
            LinkAttribute::Mtu(value) => {
                if *value != UNSET_MTU {
                    mtu = Some(*value);
                }
            },
            LinkAttribute::Address(bytes) => {
                if bytes.len() == 6 {
                    hw_address = Some(MacAddress::from_bytes(bytes));
                }
            },
            _ => {},
        }
        i = i + 1;
    }
    proof {
        assert(all.subrange(1, n as int) =~= all.drop_first());
    }
    Ok(LinkInfo { name, oper_status, mtu, hw_address })
}

/// One attribute of a kernel address message.
#[derive(Debug, Clone, PartialEq, Eq)]
pub enum AddressAttribute {
    Address(Vec<u8>),
    /// Any attribute of a kind that the decoder does not read.
    Other,
}

/// The content of an [`AddressAttribute`].
pub enum AddressAttributeView {
    Address(Seq<u8>),
    Other,
}

impl View for AddressAttribute {
    type V = AddressAttributeView;

    open spec fn view(&self) -> AddressAttributeView {
        match self {
            AddressAttribute::Address(bytes) => AddressAttributeView::Address(bytes@),
            AddressAttribute::Other => AddressAttributeView::Other,
        }
    }
}

/// The contents of a list of address attributes.
pub open spec fn address_attributes_view(attributes: Seq<AddressAttribute>) -> Seq<
    AddressAttributeView,
> {
    Seq::new(attributes.len(), |i: int| attributes[i]@)
}

/// The IPv4 address that a list of address attributes reports: that of its last address
/// attribute of exactly four bytes.
pub open spec fn reported_address(attributes: Seq<AddressAttributeView>) -> Option<Seq<u8>>
    decreases attributes.len(),
{
    if attributes.len() == 0 {
        None
    } else {
        match attributes.last() {
            AddressAttributeView::Address(bytes) if bytes.len() == 4 => Some(bytes),
            _ => reported_address(attributes.drop_last()),
        }
    }
}

/// Decodes the attributes of a kernel address message: the IPv4 address that they report,
/// if any. An address attribute counts only if it is four bytes long, the last that counts
/// is reported, and attributes of other kinds are passed over.
pub fn get_addr_info_from_nlas(attributes: &Vec<AddressAttribute>) -> (r: Option<Ipv4Address>)
    ensures
        option_ip_view(r) == reported_address(address_attributes_view(attributes@)),
{
    let ghost all = address_attributes_view(attributes@);
    let n = attributes.len();
    let mut address: Option<Ipv4Address> = None;
    let mut i: usize = 0;
    proof {
        assert(all.subrange(0, 0) =~= Seq::empty());
    }
    while i < n
        invariant
            n == attributes.len(),
            all == address_attributes_view(attributes@),
            i <= n,
            option_ip_view(address) == reported_address(all.subrange(0, i as int)),
        decreases n - i,
    {
        proof {
            let seen = all.subrange(0, i + 1);
            assert(seen.last() == attributes[i as int]@);
            assert(seen.drop_last() =~= all.subrange(0, i as int));
        }
        match &attributes[i] {
            AddressAttribute::Address(bytes) => {
                if bytes.len() == 4 {
                    address = Some(Ipv4Address::from_bytes(bytes));
                }
            },
            _ => {},
        }
        i = i + 1;
    }
    proof {
        assert(all.subrange(0, n as int) =~= all);
    }
    address
}

/// One attribute of a kernel neighbor message.
#[derive(Debug, Clone, PartialEq, Eq)]
pub enum NeighborAttribute {
    Destination(Vec<u8>),
    LinkLayerAddress(Vec<u8>),
    /// Any attribute of a kind that the decoder does not read.
    Other,
}

/// The content of a [`NeighborAttribute`].
pub enum NeighborAttributeView {
    Destination(Seq<u8>),
    LinkLayerAddress(Seq<u8>),
    Other,
}

impl View for NeighborAttribute {
    type V = NeighborAttributeView;

    open spec fn view(&self) -> NeighborAttributeView {
        match self {
            NeighborAttribute::Destination(bytes) => NeighborAttributeView::Destination(bytes@),
            NeighborAttribute::LinkLayerAddress(bytes) => NeighborAttributeView::LinkLayerAddress(
                bytes@,
            ),
            NeighborAttribute::Other => NeighborAttributeView::Other,
        }
    }
}

/// The contents of a list of neighbor attributes.
pub open spec fn neighbor_attributes_view(attributes: Seq<NeighborAttribute>) -> Seq<
    NeighborAttributeView,
> {
    Seq::new(attributes.len(), |i: int| attributes[i]@)
}

/// The destination that a list of neighbor attributes reports: that of its last destination
/// attribute of exactly four bytes.
pub open spec fn reported_destination(attributes: Seq<NeighborAttributeView>) -> Option<Seq<u8>>
    decreases attributes.len(),
{
    if attributes.len() == 0 {
        None
    } else {
        match attributes.last() {
            NeighborAttributeView::Destination(bytes) if bytes.len() == 4 => Some(bytes),
            _ => reported_destination(attributes.drop_last()),
        }
    }
}

/// The link-layer address that a list of neighbor attributes reports: that of its last
/// link-layer attribute of exactly six bytes.
pub open spec fn reported_link_layer(attributes: Seq<NeighborAttributeView>) -> Option<Seq<u8>>
    decreases attributes.len(),
{
    if attributes.len() == 0 {
        None
    } else {
        match attributes.last() {
            NeighborAttributeView::LinkLayerAddress(bytes) if bytes.len() == 6 => Some(bytes),
            _ => reported_link_layer(attributes.drop_last()),
        }
    }
}

/// Decodes the attributes of a kernel neighbor message: the destination and the link-layer
/// address that they report, each if there is one. A destination counts only if it is four
/// bytes long, a link-layer address only if it is six; the last that counts is reported, and
/// attributes of other kinds are passed over.
pub fn get_neigh_info_from_nlas(attributes: &Vec<NeighborAttribute>) -> (r: (
    Option<Ipv4Address>,
    Option<MacAddress>,
))
    ensures
        option_ip_view(r.0) == reported_destination(neighbor_attributes_view(attributes@)),
        option_mac_view(r.1) == reported_link_layer(neighbor_attributes_view(attributes@)),
{
    let ghost all = neighbor_attributes_view(attributes@);
    let n = attributes.len();
    let mut destination: Option<Ipv4Address> = None;
    let mut link_layer: Option<MacAddress> = None;
    let mut i: usize = 0;
    proof {
        assert(all.subrange(0, 0) =~= Seq::empty());
    }
    while i < n
        invariant
            n == attributes.len(),
            all == neighbor_attributes_view(attributes@),
            i <= n,
            option_ip_view(destination) == reported_destination(all.subrange(0, i as int)),
            option_mac_view(link_layer) == reported_link_layer(all.subrange(0, i as int)),
        decreases n - i,
    {
        proof {
            let seen = all.subrange(0, i + 1);
            assert(seen.last() == attributes[i as int]@);
            assert(seen.drop_last() =~= all.subrange(0, i as int));
        }
        match &attributes[i] {
            NeighborAttribute::Destination(bytes) => {
                if bytes.len() == 4 {
                    destination = Some(Ipv4Address::from_bytes(bytes));
                }
            },
            NeighborAttribute::LinkLayerAddress(bytes) => {
                if bytes.len() == 6 {
                    link_layer = Some(MacAddress::from_bytes(bytes));
                }
            },
            _ => {},
        }
        i = i + 1;
    }
    proof {
        assert(all.subrange(0, n as int) =~= all);
    }
    (destination, link_layer)
}

/// The address family of IPv4 in kernel messages.
pub const FAMILY_IPV4: u8 = 2;

/// The kind of a neighbor entry that stands for a destination.
pub const NEIGHBOR_DESTINATION: u8 = 1;

/// A kernel link message: the interface's index and flag word, and its attributes.
#[derive(Debug, Clone, PartialEq, Eq)]
pub struct LinkMessage {
    pub index: u32,
    pub flags: u32,
    pub attributes: Vec<LinkAttribute>,
}

/// The content of a [`LinkMessage`].
pub struct LinkMessageView {
    pub index: u32,
    pub flags: u32,
    pub attributes: Seq<LinkAttributeView>,
}

impl View for LinkMessage {
    type V = LinkMessageView;

    open spec fn view(&self) -> LinkMessageView {
        LinkMessageView {
            index: self.index,
            flags: self.flags,
            attributes: link_attributes_view(self.attributes@),
        }
    }
}

/// The contents of a list of link messages.
pub open spec fn links_view(links: Seq<LinkMessage>) -> Seq<LinkMessageView> {
    Seq::new(links.len(), |i: int| links[i]@)
}

/// A kernel address message: the index of the interface that owns the address, the address
/// family, the prefix length, and the attributes.
#[derive(Debug, Clone, PartialEq, Eq)]
pub struct AddressMessage {
    pub index: u32,
    pub family: u8,
    pub prefix_len: u8,
    pub attributes: Vec<AddressAttribute>,
}

/// The content of an [`AddressMessage`].
pub struct AddressMessageView {
    pub index: u32,
    pub family: u8,
    pub prefix_len: u8,
    pub attributes: Seq<AddressAttributeView>,
}

impl View for AddressMessage {
    type V = AddressMessageView;

    open spec fn view(&self) -> AddressMessageView {
        AddressMessageView {
            index: self.index,
            family: self.family,
            prefix_len: self.prefix_len,
            attributes: address_attributes_view(self.attributes@),
        }
    }
}

/// The contents of a list of address messages.
pub open spec fn addresses_view(addresses: Seq<AddressMessage>) -> Seq<AddressMessageView> {
    Seq::new(addresses.len(), |i: int| addresses[i]@)
}

/// A kernel neighbor message: the index of the interface behind which the neighbor lives,
/// the kind of the entry, and the attributes.
#[derive(Debug, Clone, PartialEq, Eq)]
pub struct NeighborMessage {
    pub ifindex: u32,
    pub kind: u8,
    pub attributes: Vec<NeighborAttribute>,
}

/// The content of a [`NeighborMessage`].
pub struct NeighborMessageView {
    pub ifindex: u32,
    pub kind: u8,
    pub attributes: Seq<NeighborAttributeView>,
}

impl View for NeighborMessage {
    type V = NeighborMessageView;

    open spec fn view(&self) -> NeighborMessageView {
        NeighborMessageView {
            ifindex: self.ifindex,
            kind: self.kind,
            attributes: neighbor_attributes_view(self.attributes@),
        }
    }
}

/// The contents of a list of neighbor messages.
pub open spec fn neighbors_view(neighbors: Seq<NeighborMessage>) -> Seq<NeighborMessageView> {
    Seq::new(neighbors.len(), |i: int| neighbors[i]@)
}

/// The state of one interface as a link message gives it: its name, its administrative
/// status, its operational status and MTU where they are reported, and its hardware address
/// where it has one of six bytes.
#[derive(Debug, Clone, PartialEq, Eq)]
pub struct InterfaceState {
    pub name: String,
    pub admin_status: AdminStatus,
    pub oper_status: Option<OperStatus>,
    pub mtu: Option<u32>,
    pub hw_address: Option<MacAddress>,
}

/// The content of an [`InterfaceState`].
pub struct InterfaceStateView {
    pub name: Seq<char>,
    pub admin_status: AdminStatus,
    pub oper_status: Option<OperStatus>,
    pub mtu: Option<u32>,
    pub hw_address: Option<Seq<u8>>,
}

impl View for InterfaceState {
    type V = InterfaceStateView;

    open spec fn view(&self) -> InterfaceStateView {
        InterfaceStateView {
            name: self.name@,
            admin_status: self.admin_status,
            oper_status: self.oper_status,
            mtu: self.mtu,
            hw_address: option_mac_view(self.hw_address),
        }
    }
}

/// The state that a link message gives: what its attributes say, and the administrative
/// status that its flag word carries, whatever operational state the attributes report.
pub open spec fn interface_state_of(message: LinkMessageView) -> Result<
    InterfaceStateView,
    DecodeError,
> {
    match link_info_of(message.attributes) {
        Ok(info) => Ok(
            InterfaceStateView {
                name: info.name,
                admin_status: AdminStatus::of_flags(message.flags),
                oper_status: info.oper_status,
                mtu: info.mtu,
                hw_address: info.hw_address,
            },
        ),
        Err(e) => Err(e),
    }
}

/// The content of what reading an interface's state hands back.
pub open spec fn interface_result_view(r: Result<InterfaceState, DecodeError>) -> Result<
    InterfaceStateView,
    DecodeError,
> {
    match r {
        Ok(state) => Ok(state@),
        Err(e) => Err(e),
    }
}

/// Reads the state of an interface out of its link message. The administrative status comes
/// from the flag word alone, the rest from the attributes.
pub fn interface_state(message: &LinkMessage) -> (r: Result<InterfaceState, DecodeError>)
    ensures
        interface_result_view(r) == interface_state_of(message@),
{
    match get_link_info_from_nlas(&message.attributes) {
        Ok(info) => Ok(
            InterfaceState {
                name: info.name,
                admin_status: AdminStatus::from_flags(message.flags),
                oper_status: info.oper_status,
                mtu: info.mtu,
                hw_address: info.hw_address,
            },
        ),
        Err(e) => Err(e),
    }
}

/// One address of an interface.
#[derive(Debug, Clone, Copy, PartialEq, Eq)]
pub struct AddressEntry {
    pub ip: Ipv4Address,
    pub prefix_length: u8,
}

/// The content of an [`AddressEntry`].
pub struct AddressEntryView {
    pub ip: Seq<u8>,
    pub prefix_length: u8,
}

impl View for AddressEntry {
    type V = AddressEntryView;

    open spec fn view(&self) -> AddressEntryView {
        AddressEntryView { ip: self.ip@, prefix_length: self.prefix_length }
    }
}

/// The address that an address message gives: none unless the message is of the IPv4 family
/// and its attributes report an address.
pub open spec fn address_entry_of(message: AddressMessageView) -> Option<AddressEntryView> {
    if message.family == FAMILY_IPV4 {
        match reported_address(message.attributes) {
            Some(ip) => Some(AddressEntryView { ip, prefix_length: message.prefix_len }),
            None => None,
        }
    } else {
        None
    }
}

/// The content of an optional address entry.
pub open spec fn option_address_view(entry: Option<AddressEntry>) -> Option<AddressEntryView> {
    match entry {
        Some(e) => Some(e@),
        None => None,
    }
}

/// Reads the address out of an address message, if it gives one.
pub fn address_entry(message: &AddressMessage) -> (r: Option<AddressEntry>)
    ensures
        option_address_view(r) == address_entry_of(message@),
{
    if message.family != FAMILY_IPV4 {
        return None;
    }
    match get_addr_info_from_nlas(&message.attributes) {
        Some(ip) => Some(AddressEntry { ip, prefix_length: message.prefix_len }),
        None => None,
    }
}

/// One neighbor behind an interface.
#[derive(Debug, Clone, Copy, PartialEq, Eq)]
pub struct NeighborEntry {
    pub ip: Ipv4Address,
    pub link_layer_address: Option<MacAddress>,
}

/// The content of a [`NeighborEntry`].
pub struct NeighborEntryView {
    pub ip: Seq<u8>,
    pub link_layer_address: Option<Seq<u8>>,
}

impl View for NeighborEntry {
    type V = NeighborEntryView;

    open spec fn view(&self) -> NeighborEntryView {
        NeighborEntryView {
            ip: self.ip@,
            link_layer_address: option_mac_view(self.link_layer_address),
        }
    }
}

/// The neighbor that a neighbor message gives: none unless the message is a destination
/// entry and its attributes report a destination.
pub open spec fn neighbor_entry_of(message: NeighborMessageView) -> Option<NeighborEntryView> {
    if message.kind == NEIGHBOR_DESTINATION {
        match reported_destination(message.attributes) {
            Some(ip) => Some(
                NeighborEntryView {
                    ip,
                    link_layer_address: reported_link_layer(message.attributes),
                },
            ),
            None => None,
        }
    } else {
        None
    }
}

/// The content of an optional neighbor entry.
pub open spec fn option_neighbor_view(entry: Option<NeighborEntry>) -> Option<NeighborEntryView> {
    match entry {
        Some(e) => Some(e@),
        None => None,
    }
}

/// Reads the neighbor out of a neighbor message, if it gives one.
pub fn neighbor_entry(message: &NeighborMessage) -> (r: Option<NeighborEntry>)
    ensures
        option_neighbor_view(r) == neighbor_entry_of(message@),
{
    if message.kind != NEIGHBOR_DESTINATION {
        return None;
    }
    let (destination, link_layer_address) = get_neigh_info_from_nlas(&message.attributes);
    match destination {
        Some(ip) => Some(NeighborEntry { ip, link_layer_address }),
        None => None,
    }
}

} // verus!
