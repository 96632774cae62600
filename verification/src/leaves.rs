use crate::decode::{
    address_entry, address_entry_of, addresses_view, ipv4_text, mac_text, neighbor_entry,
    neighbor_entry_of, neighbors_view, AddressEntry, AddressEntryView, AddressMessage,
    AddressMessageView, InterfaceState, InterfaceStateView, NeighborEntry, NeighborEntryView,
    NeighborMessage, NeighborMessageView,
};
use crate::render::{render, render_predicates};
use crate::schema::top_container_path;
use crate::text::{decimal_string, decimal_text};
use crate::xpath::SegmentView;
use vstd::prelude::*;

verus! {

/// One leaf of the management data tree: the instance path of a node and its value, if it
/// has one.
#[derive(Debug, Clone, PartialEq, Eq)]
pub struct Leaf {
    pub path: String,
    pub value: Option<String>,
}

/// The content of a [`Leaf`].
pub struct LeafView {
    pub path: Seq<char>,
    pub value: Option<Seq<char>>,
}

impl View for Leaf {
    type V = LeafView;

    open spec fn view(&self) -> LeafView {
        LeafView {
            path: self.path@,
            value: match self.value {
                Some(text) => Some(text@),
                None => None,
            },
        }
    }
}

/// The contents of a list of leaves.
pub open spec fn leaves_view(leaves: Seq<Leaf>) -> Seq<LeafView> {
    Seq::new(leaves.len(), |i: int| leaves[i]@)
}

/// The path of the list entry of the interface `name` under the container `top`.
pub open spec fn interface_prefix(top: Seq<char>, name: Seq<char>) -> Seq<char> {
    top + "/interface[name='"@ + name + "']"@
}

/// The leaves of an interface under its path `prefix`: the name, the operational status
/// (without a value where none is reported), the administrative status, then the MTU and the
/// hardware address where the interface has them.
pub open spec fn link_leaves(prefix: Seq<char>, state: InterfaceStateView) -> Seq<LeafView> {
    seq![
        LeafView { path: prefix + "/name"@, value: Some(state.name) },
        LeafView {
            path: prefix + "/state/oper-status"@,
            value: match state.oper_status {
                Some(status) => Some(status.word()),
                None => None,
            },
        },
        LeafView { path: prefix + "/state/admin-status"@, value: Some(state.admin_status.word()) },
    ] + (match state.mtu {
        Some(mtu) => seq![
            LeafView { path: prefix + "/ethernet/state/mtu"@, value: Some(decimal_text(mtu as nat)) },
        ],
        None => Seq::empty(),
    }) + (match state.hw_address {
        Some(octets) => seq![
            LeafView { path: prefix + "/ethernet/state/mac-address"@, value: Some(mac_text(octets)) },
        ],
        None => Seq::empty(),
    })
}

/// The path of the list entry of the address `ip` of the interface at `prefix`.
pub open spec fn address_prefix(prefix: Seq<char>, ip: Seq<char>) -> Seq<char> {
    prefix + "/goldstone-ipv4:ipv4/addresses/address[ip='"@ + ip + "']"@
}

/// The path of the list entry of the neighbor `ip` of the interface at `prefix`.
pub open spec fn neighbor_prefix(prefix: Seq<char>, ip: Seq<char>) -> Seq<char> {
    prefix + "/goldstone-ipv4:ipv4/neighbors/neighbor[ip='"@ + ip + "']"@
}

/// The leaves of one address of the interface at `prefix`: the address, twice, and the
/// prefix length.
pub open spec fn address_entry_leaves(prefix: Seq<char>, entry: AddressEntryView) -> Seq<LeafView> {
    let ip = ipv4_text(entry.ip);
    let at = address_prefix(prefix, ip);
    seq![
        LeafView { path: at + "/config/ip"@, value: Some(ip) },
        LeafView { path: at + "/state/ip"@, value: Some(ip) },
        LeafView {
            path: at + "/state/prefix-length"@,
            value: Some(decimal_text(entry.prefix_length as nat)),
        },
    ]
}

/// The leaves that one address message gives for the interface `index` at `prefix`: none
/// unless it belongs to that interface and gives an address.
pub open spec fn address_leaves(prefix: Seq<char>, index: u32, message: AddressMessageView) -> Seq<
    LeafView,
> {
    if message.index == index {
        match address_entry_of(message) {
            Some(entry) => address_entry_leaves(prefix, entry),
            None => Seq::empty(),
        }
    } else {
        Seq::empty()
    }
}

/// The leaves that a list of address messages gives for one interface, message by message in
/// the order of the list.
pub open spec fn all_address_leaves(
    prefix: Seq<char>,
    index: u32,
    messages: Seq<AddressMessageView>,
) -> Seq<LeafView>
    decreases messages.len(),
{
    if messages.len() == 0 {
        Seq::empty()
    } else {
        all_address_leaves(prefix, index, messages.drop_last()) + address_leaves(
            prefix,
            index,
            messages.last(),
        )
    }
}

/// The leaves of one neighbor of the interface at `prefix`: the destination, twice, and the
/// link-layer address where the neighbor has one.
pub open spec fn neighbor_entry_leaves(prefix: Seq<char>, entry: NeighborEntryView) -> Seq<LeafView> {
    let ip = ipv4_text(entry.ip);
    let at = neighbor_prefix(prefix, ip);
    seq![
        LeafView { path: at + "/config/ip"@, value: Some(ip) },
        LeafView { path: at + "/state/ip"@, value: Some(ip) },
    ] + (match entry.link_layer_address {
        Some(mac) => seq![
            LeafView { path: at + "/state/link-layer-address"@, value: Some(mac_text(mac)) },
        ],
        None => Seq::empty(),
    })
}

/// The leaves that one neighbor message gives for the interface `index` at `prefix`: none
/// unless it belongs to that interface and gives a neighbor.
pub open spec fn neighbor_leaves(prefix: Seq<char>, index: u32, message: NeighborMessageView) -> Seq<
    LeafView,
> {
    if message.ifindex == index {
        match neighbor_entry_of(message) {
            Some(entry) => neighbor_entry_leaves(prefix, entry),
            None => Seq::empty(),
        }
    } else {
        Seq::empty()
    }
}

/// The leaves that a list of neighbor messages gives for one interface, message by message
/// in the order of the list.
pub open spec fn all_neighbor_leaves(
    prefix: Seq<char>,
    index: u32,
    messages: Seq<NeighborMessageView>,
) -> Seq<LeafView>
    decreases messages.len(),
{
    if messages.len() == 0 {
        Seq::empty()
    } else {
        all_neighbor_leaves(prefix, index, messages.drop_last()) + neighbor_leaves(
            prefix,
            index,
            messages.last(),
        )
    }
}

fn joined(a: &str, b: &str) -> (r: String)
    ensures
        r@ == a@ + b@,
{
    String::from_str(a).concat(b)
}

fn push_leaf(out: &mut Vec<Leaf>, prefix: &str, suffix: &str, value: Option<String>)
    ensures
        leaves_view(final(out)@) == leaves_view(old(out)@).push(
            LeafView {
                path: prefix@ + suffix@,
                value: match value {
                    Some(text) => Some(text@),
                    None => None,
                },
            },
        ),
{
    let leaf = Leaf { path: joined(prefix, suffix), value };
    out.push(leaf);
    assert(leaves_view(out@) =~= leaves_view(old(out)@).push(leaf@));
}

/// The path of the list entry of the interface `name` under the container `top`.
pub fn interface_path(top: &str, name: &str) -> (r: String)
    ensures
        r@ == interface_prefix(top@, name@),
{
    let mut path = joined(top, "/interface[name='");
    path.append(name);
    path.append("']");
    path
}

/// Puts behind `out` the leaves of an interface under its path `prefix`.
pub fn push_link_leaves(out: &mut Vec<Leaf>, prefix: &str, state: &InterfaceState)
    ensures
        leaves_view(final(out)@) == leaves_view(old(out)@) + link_leaves(prefix@, state@),
{
    push_leaf(out, prefix, "/name", Some(state.name.clone()));
    let status = match state.oper_status {
        Some(status) => Some(String::from_str(status.text())),
        None => None,
    };
    push_leaf(out, prefix, "/state/oper-status", status);
    push_leaf(out, prefix, "/state/admin-status", Some(String::from_str(state.admin_status.text())));
    match state.mtu {
        Some(mtu) => {
            push_leaf(out, prefix, "/ethernet/state/mtu", Some(decimal_string(mtu)));
        },
        None => {},
    }
    match state.hw_address {
        Some(mac) => {
            push_leaf(out, prefix, "/ethernet/state/mac-address", Some(mac.text()));
        },
        None => {},
    }
    assert(leaves_view(out@) =~= leaves_view(old(out)@) + link_leaves(prefix@, state@));
}

/// Puts behind `out` the leaves of one address of the interface at `prefix`.
pub fn push_address_entry(out: &mut Vec<Leaf>, prefix: &str, entry: &AddressEntry)
    ensures
        leaves_view(final(out)@) == leaves_view(old(out)@) + address_entry_leaves(prefix@, entry@),
{
    let ip = entry.ip.text();
    let mut at = joined(prefix, "/goldstone-ipv4:ipv4/addresses/address[ip='");
    at.append(ip.as_str());
    at.append("']");
    push_leaf(out, at.as_str(), "/config/ip", Some(ip.clone()));
    push_leaf(out, at.as_str(), "/state/ip", Some(ip));
    push_leaf(
        out,
        at.as_str(),
        "/state/prefix-length",
        Some(decimal_string(entry.prefix_length as u32)),
    );
    assert(leaves_view(out@) =~= leaves_view(old(out)@) + address_entry_leaves(prefix@, entry@));
}

/// Puts behind `out` the leaves of one neighbor of the interface at `prefix`.
pub fn push_neighbor_entry(out: &mut Vec<Leaf>, prefix: &str, entry: &NeighborEntry)
    ensures
        leaves_view(final(out)@) == leaves_view(old(out)@) + neighbor_entry_leaves(prefix@, entry@),
{
    let ip = entry.ip.text();
    let mut at = joined(prefix, "/goldstone-ipv4:ipv4/neighbors/neighbor[ip='");
    at.append(ip.as_str());
    at.append("']");
    push_leaf(out, at.as_str(), "/config/ip", Some(ip.clone()));
    push_leaf(out, at.as_str(), "/state/ip", Some(ip));
    match entry.link_layer_address {
        Some(mac) => {
            push_leaf(out, at.as_str(), "/state/link-layer-address", Some(mac.text()));
        },
        None => {},
    }
    assert(leaves_view(out@) =~= leaves_view(old(out)@) + neighbor_entry_leaves(prefix@, entry@));
}

fn push_one_address(out: &mut Vec<Leaf>, prefix: &str, index: u32, message: &AddressMessage)
    ensures
        leaves_view(final(out)@) == leaves_view(old(out)@) + address_leaves(
            prefix@,
            index,
            message@,
        ),
{
    if message.index == index {
        match address_entry(message) {
            Some(entry) => {
                push_address_entry(out, prefix, &entry);
                return;
            },
            None => {},
        }
    }
    assert(leaves_view(out@) + Seq::<LeafView>::empty() =~= leaves_view(out@));
}

/// Puts behind `out` the leaves that a list of address messages gives for the interface
/// `index` at `prefix`. A message that belongs to another interface or family, or that
/// reports no address, adds nothing and does not stop the others.
pub fn push_address_leaves(
    out: &mut Vec<Leaf>,
    prefix: &str,
    index: u32,
    messages: &Vec<AddressMessage>,
)
    ensures
        leaves_view(final(out)@) == leaves_view(old(out)@) + all_address_leaves(
            prefix@,
            index,
            addresses_view(messages@),
        ),
{
    let ghost all = addresses_view(messages@);
    let ghost before = leaves_view(out@);
    let n = messages.len();
    let mut i: usize = 0;
    proof {
        assert(all.subrange(0, 0) =~= Seq::empty());
        assert(before + Seq::<LeafView>::empty() =~= before);
    }
    while i < n
        invariant
            n == messages.len(),
            all == addresses_view(messages@),
            i <= n,
            leaves_view(out@) == before + all_address_leaves(
                prefix@,
                index,
                all.subrange(0, i as int),
            ),
        decreases n - i,
    {
        proof {
            let seen = all.subrange(0, i + 1);
            assert(seen.last() == messages[i as int]@);
            assert(seen.drop_last() =~= all.subrange(0, i as int));
        }
        let ghost start = leaves_view(out@);
        push_one_address(out, prefix, index, &messages[i]);
        proof {
            let done = all_address_leaves(prefix@, index, all.subrange(0, i as int));
            let one = address_leaves(prefix@, index, messages[i as int]@);
            assert((before + done) + one =~= before + (done + one));
        }
        i = i + 1;
    }
    proof {
        assert(all.subrange(0, n as int) =~= all);
    }
}

fn push_one_neighbor(out: &mut Vec<Leaf>, prefix: &str, index: u32, message: &NeighborMessage)
    ensures
        leaves_view(final(out)@) == leaves_view(old(out)@) + neighbor_leaves(
            prefix@,
            index,
            message@,
        ),
{
    if message.ifindex == index {
        match neighbor_entry(message) {
            Some(entry) => {
                push_neighbor_entry(out, prefix, &entry);
                return;
            },
            None => {},
        }
    }
    assert(leaves_view(out@) + Seq::<LeafView>::empty() =~= leaves_view(out@));
}

/// Puts behind `out` the leaves that a list of neighbor messages gives for the interface
/// `index` at `prefix`. A message that belongs to another interface, is of another kind, or
/// reports no destination adds nothing and does not stop the others.
pub fn push_neighbor_leaves(
    out: &mut Vec<Leaf>,
    prefix: &str,
    index: u32,
    messages: &Vec<NeighborMessage>,
)
    ensures
        leaves_view(final(out)@) == leaves_view(old(out)@) + all_neighbor_leaves(
            prefix@,
            index,
            neighbors_view(messages@),
        ),
{
    let ghost all = neighbors_view(messages@);
    let ghost before = leaves_view(out@);
    let n = messages.len();
    let mut i: usize = 0;
    proof {
        assert(all.subrange(0, 0) =~= Seq::empty());
        assert(before + Seq::<LeafView>::empty() =~= before);
    }
    while i < n
        invariant
            n == messages.len(),
            all == neighbors_view(messages@),
            i <= n,
            leaves_view(out@) == before + all_neighbor_leaves(
                prefix@,
                index,
                all.subrange(0, i as int),
            ),
        decreases n - i,
    {
        proof {
            let seen = all.subrange(0, i + 1);
            assert(seen.last() == messages[i as int]@);
            assert(seen.drop_last() =~= all.subrange(0, i as int));
        }
        push_one_neighbor(out, prefix, index, &messages[i]);
        proof {
            let done = all_neighbor_leaves(prefix@, index, all.subrange(0, i as int));
            let one = neighbor_leaves(prefix@, index, messages[i as int]@);
            assert((before + done) + one =~= before + (done + one));
        }
        i = i + 1;
    }
    proof {
        assert(all.subrange(0, n as int) =~= all);
    }
}

/// Whether the path `path` begins with `prefix`.
pub open spec fn begins_with(path: Seq<char>, prefix: Seq<char>) -> bool {
    prefix.len() <= path.len() && path.subrange(0, prefix.len() as int) == prefix
}

/// Whether each of these leaves lies under `prefix`.
pub open spec fn all_under(leaves: Seq<LeafView>, prefix: Seq<char>) -> bool {
    forall|i: int| 0 <= i < leaves.len() ==> begins_with(#[trigger] leaves[i].path, prefix)
}

proof fn lemma_begins_with_extended(prefix: Seq<char>, middle: Seq<char>, suffix: Seq<char>)
    ensures
        begins_with(prefix + middle + suffix, prefix),
{
    assert((prefix + middle + suffix).subrange(0, prefix.len() as int) =~= prefix);
}

proof fn lemma_address_leaves_under(prefix: Seq<char>, index: u32, message: AddressMessageView)
    ensures
        all_under(address_leaves(prefix, index, message), prefix),
{
    if message.index == index {
        match address_entry_of(message) {
            Some(entry) => {
                let middle = "/goldstone-ipv4:ipv4/addresses/address[ip='"@ + ipv4_text(entry.ip)
                    + "']"@;
                assert(address_prefix(prefix, ipv4_text(entry.ip)) =~= prefix + middle);
                lemma_begins_with_extended(prefix, middle, "/config/ip"@);
                lemma_begins_with_extended(prefix, middle, "/state/ip"@);
                lemma_begins_with_extended(prefix, middle, "/state/prefix-length"@);
            },
            None => {},
        }
    }
}

proof fn lemma_neighbor_leaves_under(prefix: Seq<char>, index: u32, message: NeighborMessageView)
    ensures
        all_under(neighbor_leaves(prefix, index, message), prefix),
{
    if message.ifindex == index {
        match neighbor_entry_of(message) {
            Some(entry) => {
                let middle = "/goldstone-ipv4:ipv4/neighbors/neighbor[ip='"@ + ipv4_text(entry.ip)
                    + "']"@;
                assert(neighbor_prefix(prefix, ipv4_text(entry.ip)) =~= prefix + middle);
                lemma_begins_with_extended(prefix, middle, "/config/ip"@);
                lemma_begins_with_extended(prefix, middle, "/state/ip"@);
                lemma_begins_with_extended(prefix, middle, "/state/link-layer-address"@);
            },
            None => {},
        }
    }
}

/// The entries of an interface stay with it: every leaf that address messages or neighbor
/// messages give for an interface lies under the path of that interface, and a message that
/// belongs to another interface gives it none.
pub proof fn lemma_entries_stay_with_interface(
    prefix: Seq<char>,
    index: u32,
    addresses: Seq<AddressMessageView>,
    neighbors: Seq<NeighborMessageView>,
)
    ensures
        all_under(all_address_leaves(prefix, index, addresses), prefix),
        all_under(all_neighbor_leaves(prefix, index, neighbors), prefix),
        forall|i: int|
            0 <= i < addresses.len() && addresses[i].index != index ==> #[trigger] address_leaves(
                prefix,
                index,
                addresses[i],
            ).len() == 0,
        forall|i: int|
            0 <= i < neighbors.len() && neighbors[i].ifindex != index
                ==> #[trigger] neighbor_leaves(prefix, index, neighbors[i]).len() == 0,
    decreases addresses.len() + neighbors.len(),
{
    if addresses.len() > 0 {
        lemma_entries_stay_with_interface(prefix, index, addresses.drop_last(), neighbors);
        lemma_address_leaves_under(prefix, index, addresses.last());
    } else if neighbors.len() > 0 {
        lemma_entries_stay_with_interface(prefix, index, addresses, neighbors.drop_last());
        lemma_neighbor_leaves_under(prefix, index, neighbors.last());
    }
}

/// The two segments of an interface's path: the container `container` of the module
/// `module`, and the entry of the interface list whose key `name` has the value `name`.
pub open spec fn interface_segments(module: Seq<char>, container: Seq<char>, name: Seq<char>) -> Seq<
    SegmentView,
> {
    seq![
        SegmentView { namespace: Some(module), name: container, predicates: Seq::empty() },
        SegmentView {
            namespace: None,
            name: "interface"@,
            predicates: seq![("name"@, name)],
        },
    ]
}

/// The path under which an interface's leaves are written is the rendering of its two
/// segments.
pub proof fn lemma_interface_prefix_is_rendered(
    module: Seq<char>,
    container: Seq<char>,
    name: Seq<char>,
)
    ensures
        interface_prefix(top_container_path(module, container), name) == render(
            interface_segments(module, container, name),
        ),
{
    reveal_strlit("/");
    reveal_strlit(":");
    reveal_strlit("/interface[name='");
    reveal_strlit("']");
    reveal_strlit("interface");
    reveal_strlit("name");
    let segments = interface_segments(module, container, name);
    let second = segments.drop_first();
    let written = render_predicates(segments[1].predicates);
    assert(render_predicates(segments[0].predicates) =~= Seq::empty());
    assert(segments[1].predicates.drop_first() =~= Seq::empty());
    assert(written =~= seq!['[', 'n', 'a', 'm', 'e', '=', '\''] + name + seq!['\'', ']']) by {
        assert(render_predicates(segments[1].predicates.drop_first())
            =~= Seq::empty());
    }
    assert(second[0] == segments[1]);
    assert(second.drop_first() =~= Seq::empty());
    assert(render(second.drop_first()) =~= Seq::empty());
    assert(render(second) =~= "/interface[name='"@ + name + "']"@);
    assert(render(segments) =~= interface_prefix(top_container_path(module, container), name));
}

} // verus!
