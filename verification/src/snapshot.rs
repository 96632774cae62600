use crate::decode::{
    addresses_view, interface_state, interface_state_of, links_view, neighbors_view,
    AddressMessage, AddressMessageView, LinkMessage, LinkMessageView, NeighborMessage,
    NeighborMessageView,
};
use crate::error::Error;
use crate::leaves::{
    all_address_leaves, all_neighbor_leaves, interface_path, interface_prefix, leaves_view,
    link_leaves, push_address_leaves, push_link_leaves, push_neighbor_leaves, Leaf, LeafView,
};
use vstd::prelude::*;

verus! {

/// A question that the assembler puts to the kernel.
#[derive(Debug, Clone, Copy, PartialEq, Eq, Structural)]
pub enum Request {
    /// The whole neighbor table of the IPv4 family.
    Neighbors,
    /// All interfaces.
    Links,
    /// The addresses of the interface with this index.
    Addresses { index: u32 },
}

/// The kernel's answer to a [`Request`].
#[derive(Debug, Clone, PartialEq, Eq)]
pub enum Reply {
    Neighbors(Vec<NeighborMessage>),
    Links(Vec<LinkMessage>),
    Addresses(Vec<AddressMessage>),
    /// The call failed.
    Failed,
}

/// The content of a [`Reply`].
pub enum ReplyView {
    Neighbors(Seq<NeighborMessageView>),
    Links(Seq<LinkMessageView>),
    Addresses(Seq<AddressMessageView>),
    Failed,
}

impl View for Reply {
    type V = ReplyView;

    open spec fn view(&self) -> ReplyView {
        match self {
            Reply::Neighbors(messages) => ReplyView::Neighbors(neighbors_view(messages@)),
            Reply::Links(messages) => ReplyView::Links(links_view(messages@)),
            Reply::Addresses(messages) => ReplyView::Addresses(addresses_view(messages@)),
            Reply::Failed => ReplyView::Failed,
        }
    }
}

/// What the assembler wants next: an answer to a question, or nothing more, because the
/// snapshot is complete or has failed.
#[derive(Debug, Clone, PartialEq, Eq)]
pub enum Step {
    Ask(Request),
    Done(Vec<Leaf>),
    Failed(Error),
}

/// The content of a [`Step`].
pub enum StepView {
    Ask(Request),
    Done(Seq<LeafView>),
    Failed(Error),
}

impl View for Step {
    type V = StepView;

    open spec fn view(&self) -> StepView {
        match self {
            Step::Ask(request) => StepView::Ask(*request),
            Step::Done(leaves) => StepView::Done(leaves_view(leaves@)),
            Step::Failed(error) => StepView::Failed(*error),
        }
    }
}

/// Where an assembly stands.
#[derive(Debug, Clone, Copy, PartialEq, Eq, Structural)]
pub enum Phase {
    AwaitNeighbors,
    AwaitLinks,
    AwaitAddresses,
    Finished,
}

/// The state of one assembly of an operational snapshot.
#[derive(Debug)]
pub struct Assembler {
    top: String,
    ipv4_enabled: bool,
    phase: Phase,
    neighbors: Vec<NeighborMessage>,
    links: Vec<LinkMessage>,
    position: usize,
    prefix: String,
    leaves: Vec<Leaf>,
}

/// The content of an [`Assembler`]: the path of the top-level container, whether addresses
/// and neighbors are served, the phase, the neighbor table and the interfaces as far as they
/// are known, the position and the path of the interface whose addresses are awaited, and
/// the leaves gathered so far.
pub struct AssemblerView {
    pub top: Seq<char>,
    pub ipv4_enabled: bool,
    pub phase: Phase,
    pub neighbors: Seq<NeighborMessageView>,
    pub links: Seq<LinkMessageView>,
    pub position: int,
    pub prefix: Seq<char>,
    pub leaves: Seq<LeafView>,
}

/// The state in which an assembly begins, and its first step: the neighbor table is asked
/// for first where addresses and neighbors are served, else the interfaces.
pub open spec fn begin(top: Seq<char>, ipv4_enabled: bool) -> (AssemblerView, StepView) {
    (
        AssemblerView {
            top,
            ipv4_enabled,
            phase: if ipv4_enabled {
                Phase::AwaitNeighbors
            } else {
                Phase::AwaitLinks
            },
            neighbors: Seq::empty(),
            links: Seq::empty(),
            position: 0,
            prefix: Seq::empty(),
            leaves: Seq::empty(),
        },
        StepView::Ask(
            if ipv4_enabled {
                Request::Neighbors
            } else {
                Request::Links
            },
        ),
    )
}

/// The state `state` once the assembly has ended: it holds no leaves any more.
pub open spec fn ended(state: AssemblerView) -> AssemblerView {
    AssemblerView { phase: Phase::Finished, leaves: Seq::empty(), ..state }
}

/// Takes up the interfaces from position `k` on. Each is decoded and gives its leaves. Where
/// addresses and neighbors are served, the assembly then asks for the addresses of that
/// interface and waits; else it goes on to the next. A message that cannot be decoded ends
/// the assembly with the error; the end of the list ends it with all the leaves.
pub open spec fn take_up_links(state: AssemblerView, k: int) -> (AssemblerView, StepView)
    decreases state.links.len() - k,
{
    if k < 0 || k >= state.links.len() {
        (ended(state), StepView::Done(state.leaves))
    } else {
        let link = state.links[k];
        match interface_state_of(link) {
            Err(e) => (ended(state), StepView::Failed(Error::Decode(e))),
            Ok(found) => {
                let prefix = interface_prefix(state.top, found.name);
                let leaves = state.leaves + link_leaves(prefix, found);
                if state.ipv4_enabled {
                    (
                        AssemblerView {
                            phase: Phase::AwaitAddresses,
                            position: k,
                            prefix,
                            leaves,
                            ..state
                        },
                        StepView::Ask(Request::Addresses { index: link.index }),
                    )
                } else {
                    take_up_links(AssemblerView { leaves, ..state }, k + 1)
                }
            },
        }
    }
}

/// The state that follows `state` on the answer `reply`, and the next step.
///
/// The neighbor table is kept, and the interfaces are asked for. The interfaces are taken up
/// from the first. The addresses of an interface give their leaves, then the neighbors of
/// that interface give theirs, and the interfaces behind it are taken up. A failed call, or
/// an answer that was not asked for, ends the assembly with `Error::Internal`.
pub open spec fn step(state: AssemblerView, reply: ReplyView) -> (AssemblerView, StepView) {
    match (state.phase, reply) {
        (Phase::AwaitNeighbors, ReplyView::Neighbors(neighbors)) => (
            AssemblerView { phase: Phase::AwaitLinks, neighbors, ..state },
            StepView::Ask(Request::Links),
        ),
        (Phase::AwaitLinks, ReplyView::Links(links)) => take_up_links(
            AssemblerView { links, ..state },
            0,
        ),
        (Phase::AwaitAddresses, ReplyView::Addresses(addresses)) => {
            let index = state.links[state.position].index;
            take_up_links(
                AssemblerView {
                    leaves: state.leaves + all_address_leaves(state.prefix, index, addresses)
                        + all_neighbor_leaves(state.prefix, index, state.neighbors),
                    ..state
                },
                state.position + 1,
            )
        },
        _ => (ended(state), StepView::Failed(Error::Internal)),
    }
}

impl View for Assembler {
    type V = AssemblerView;

    closed spec fn view(&self) -> AssemblerView {
        AssemblerView {
            top: self.top@,
            ipv4_enabled: self.ipv4_enabled,
            phase: self.phase,
            neighbors: neighbors_view(self.neighbors@),
            links: links_view(self.links@),
            position: self.position as int,
            prefix: self.prefix@,
            leaves: leaves_view(self.leaves@),
        }
    }
}

impl Assembler {
    /// Whether the state is one that an assembly can be in: while the addresses of an
    /// interface are awaited, that interface is one of those known.
    pub closed spec fn wf(&self) -> bool {
        self.phase == Phase::AwaitAddresses ==> self.position < self.links.len()
    }

    /// Begins the assembly of a snapshot under the container `top_container`, and says what
    /// to ask the kernel first.
    pub fn start(top_container: &str, ipv4_enabled: bool) -> (r: (Assembler, Step))
        ensures
            r.0.wf(),
            (r.0@, r.1@) == begin(top_container@, ipv4_enabled),
            !ipv4_enabled ==> r.1 == Step::Ask(Request::Links),
    {
        let state = Assembler {
            top: String::from_str(top_container),
            ipv4_enabled,
            phase: if ipv4_enabled {
                Phase::AwaitNeighbors
            } else {
                Phase::AwaitLinks
            },
            neighbors: Vec::new(),
            links: Vec::new(),
            position: 0,
            prefix: String::new(),
            leaves: Vec::new(),
        };
        let first = if ipv4_enabled {
            Request::Neighbors
        } else {
            Request::Links
        };
        proof {
            assert(neighbors_view(state.neighbors@) =~= Seq::empty());
            assert(links_view(state.links@) =~= Seq::empty());
            assert(leaves_view(state.leaves@) =~= Seq::empty());
        }
        (state, Step::Ask(first))
    }

    fn end(&mut self) -> (r: Vec<Leaf>)
        ensures
            final(self)@ == ended(old(self)@),
            final(self).wf(),
            leaves_view(r@) == old(self)@.leaves,
    {
        let mut leaves: Vec<Leaf> = Vec::new();
        std::mem::swap(&mut self.leaves, &mut leaves);
        self.phase = Phase::Finished;
        proof {
            assert(leaves_view(self.leaves@) =~= Seq::empty());
        }
        leaves
    }

    fn take_up(&mut self, from: usize) -> (r: Step)
        requires
            from <= old(self).links.len(),
        ensures
            final(self).wf(),
            (final(self)@, r@) == take_up_links(old(self)@, from as int),
    {
        let mut k: usize = from;
        while k < self.links.len()
            invariant
                k <= self.links.len(),
                take_up_links(old(self)@, from as int) == take_up_links(self@, k as int),
            decreases self.links.len() - k,
        {
            assert(self@.links[k as int] == self.links[k as int]@);
            match interface_state(&self.links[k]) {
                Err(e) => {
                    self.end();
                    return Step::Failed(Error::Decode(e));
                },
                Ok(found) => {
                    let prefix = interface_path(self.top.as_str(), found.name.as_str());
                    push_link_leaves(&mut self.leaves, prefix.as_str(), &found);
                    if self.ipv4_enabled {
                        let index = self.links[k].index;
                        self.phase = Phase::AwaitAddresses;
                        self.position = k;
                        self.prefix = prefix;
                        return Step::Ask(Request::Addresses { index });
                    }
                    k = k + 1;
                },
            }
        }
        let leaves = self.end();
        Step::Done(leaves)
    }

    /// Takes the kernel's answer to the last question and says what comes next.
    pub fn advance(&mut self, reply: Reply) -> (r: Step)
        requires
            old(self).wf(),
        ensures
            final(self).wf(),
            (final(self)@, r@) == step(old(self)@, reply@),
    {
        match (self.phase, reply) {
            (Phase::AwaitNeighbors, Reply::Neighbors(neighbors)) => {
                self.neighbors = neighbors;
                self.phase = Phase::AwaitLinks;
                Step::Ask(Request::Links)
            },
            (Phase::AwaitLinks, Reply::Links(links)) => {
                self.links = links;
                self.take_up(0)
            },
            (Phase::AwaitAddresses, Reply::Addresses(addresses)) => {
                let index = self.links[self.position].index;
                assert(self@.links[self.position as int] == self.links[self.position as int]@);
                push_address_leaves(&mut self.leaves, self.prefix.as_str(), index, &addresses);
                push_neighbor_leaves(
                    &mut self.leaves,
                    self.prefix.as_str(),
                    index,
                    &self.neighbors,
                );
                self.take_up(self.position + 1)
            },
            _ => {
                self.end();
                Step::Failed(Error::Internal)
            },
        }
    }
}

/// Whether a step asks for nothing but the interfaces, if it asks at all.
pub open spec fn asks_only_links(step: StepView) -> bool {
    step matches StepView::Ask(request) ==> request == Request::Links
}

proof fn lemma_take_up_without_entries(state: AssemblerView, k: int)
    requires
        !state.ipv4_enabled,
    ensures
        !(take_up_links(state, k).1 is Ask),
        !take_up_links(state, k).0.ipv4_enabled,
    decreases state.links.len() - k,
{
    if 0 <= k < state.links.len() {
        let link = state.links[k];
        match interface_state_of(link) {
            Ok(found) => {
                let prefix = interface_prefix(state.top, found.name);
                let leaves = state.leaves + link_leaves(prefix, found);
                lemma_take_up_without_entries(AssemblerView { leaves, ..state }, k + 1);
            },
            Err(_) => {},
        }
    }
}

/// An assembly that does not serve addresses and neighbors never asks the kernel for them:
/// it begins by asking for the interfaces, and no step of it, whatever the answer, asks for
/// the neighbor table or for the addresses of an interface.
pub proof fn lemma_disabled_asks_only_links(top: Seq<char>, state: AssemblerView, reply: ReplyView)
    requires
        !state.ipv4_enabled,
    ensures
        !begin(top, false).0.ipv4_enabled,
        asks_only_links(begin(top, false).1),
        !step(state, reply).0.ipv4_enabled,
        asks_only_links(step(state, reply).1),
{
    match (state.phase, reply) {
        (Phase::AwaitLinks, ReplyView::Links(links)) => {
            lemma_take_up_without_entries(AssemblerView { links, ..state }, 0);
        },
        (Phase::AwaitAddresses, ReplyView::Addresses(addresses)) => {
            let index = state.links[state.position].index;
            lemma_take_up_without_entries(
                AssemblerView {
                    leaves: state.leaves + all_address_leaves(state.prefix, index, addresses)
                        + all_neighbor_leaves(state.prefix, index, state.neighbors),
                    ..state
                },
                state.position + 1,
            );
        },
        _ => {},
    }
}

/// The leaves of one interface in a snapshot: those of its link message and, where addresses
/// and neighbors are served, those of its addresses and then those of its neighbors. A link
/// message that cannot be decoded gives the error instead.
pub open spec fn interface_snapshot(
    top: Seq<char>,
    ipv4_enabled: bool,
    neighbors: Seq<NeighborMessageView>,
    addresses: spec_fn(u32) -> Seq<AddressMessageView>,
    link: LinkMessageView,
) -> Result<Seq<LeafView>, Error> {
    match interface_state_of(link) {
        Err(e) => Err(Error::Decode(e)),
        Ok(found) => {
            let prefix = interface_prefix(top, found.name);
            Ok(
                link_leaves(prefix, found) + if ipv4_enabled {
                    all_address_leaves(prefix, link.index, addresses(link.index))
                        + all_neighbor_leaves(prefix, link.index, neighbors)
                } else {
                    Seq::empty()
                },
            )
        },
    }
}

/// The leaves of the interfaces from position `k` on, interface by interface in the order in
/// which the kernel lists them, or the error of the first that cannot be decoded.
pub open spec fn snapshot_from(
    top: Seq<char>,
    ipv4_enabled: bool,
    neighbors: Seq<NeighborMessageView>,
    links: Seq<LinkMessageView>,
    addresses: spec_fn(u32) -> Seq<AddressMessageView>,
    k: int,
) -> Result<Seq<LeafView>, Error>
    decreases links.len() - k,
{
    if k < 0 || k >= links.len() {
        Ok(Seq::empty())
    } else {
        match interface_snapshot(top, ipv4_enabled, neighbors, addresses, links[k]) {
            Err(e) => Err(e),
            Ok(leaves) => match snapshot_from(top, ipv4_enabled, neighbors, links, addresses, k + 1) {
                Err(e) => Err(e),
                Ok(rest) => Ok(leaves + rest),
            },
        }
    }
}

/// The snapshot of a kernel that holds the neighbor table `neighbors` and the interfaces
/// `links`, and that answers with `addresses(index)` when asked for the addresses of the
/// interface `index`.
pub open spec fn snapshot(
    top: Seq<char>,
    ipv4_enabled: bool,
    neighbors: Seq<NeighborMessageView>,
    links: Seq<LinkMessageView>,
    addresses: spec_fn(u32) -> Seq<AddressMessageView>,
) -> Result<Seq<LeafView>, Error> {
    snapshot_from(top, ipv4_enabled, neighbors, links, addresses, 0)
}

/// What that kernel answers to a request when no call fails.
pub open spec fn answer(
    neighbors: Seq<NeighborMessageView>,
    links: Seq<LinkMessageView>,
    addresses: spec_fn(u32) -> Seq<AddressMessageView>,
    request: Request,
) -> ReplyView {
    match request {
        Request::Neighbors => ReplyView::Neighbors(neighbors),
        Request::Links => ReplyView::Links(links),
        Request::Addresses { index } => ReplyView::Addresses(addresses(index)),
    }
}

/// The step at which an assembly stands after at most `fuel` of its questions were answered
/// by that kernel.
pub open spec fn run(
    state: AssemblerView,
    step: StepView,
    neighbors: Seq<NeighborMessageView>,
    links: Seq<LinkMessageView>,
    addresses: spec_fn(u32) -> Seq<AddressMessageView>,
    fuel: nat,
) -> StepView
    decreases fuel,
{
    match step {
        StepView::Ask(request) if fuel > 0 => {
            let next = self::step(state, answer(neighbors, links, addresses, request));
            run(next.0, next.1, neighbors, links, addresses, (fuel - 1) as nat)
        },
        _ => step,
    }
}

/// The step with which an assembly ends on a result.
pub open spec fn last_step(result: Result<Seq<LeafView>, Error>) -> StepView {
    match result {
        Ok(leaves) => StepView::Done(leaves),
        Err(e) => StepView::Failed(e),
    }
}

/// The result `rest` with the leaves `done` put in front of those it holds.
pub open spec fn with_leaves_before(done: Seq<LeafView>, rest: Result<Seq<LeafView>, Error>) -> Result<
    Seq<LeafView>,
    Error,
> {
    match rest {
        Ok(more) => Ok(done + more),
        Err(e) => Err(e),
    }
}

proof fn lemma_run_from(
    state: AssemblerView,
    neighbors: Seq<NeighborMessageView>,
    links: Seq<LinkMessageView>,
    addresses: spec_fn(u32) -> Seq<AddressMessageView>,
    k: int,
    fuel: nat,
)
    requires
        state.links == links,
        state.ipv4_enabled ==> state.neighbors == neighbors,
        0 <= k <= links.len(),
        fuel >= links.len() - k,
    ensures
        run(
            take_up_links(state, k).0,
            take_up_links(state, k).1,
            neighbors,
            links,
            addresses,
            fuel,
        ) == last_step(
            with_leaves_before(
                state.leaves,
                snapshot_from(state.top, state.ipv4_enabled, neighbors, links, addresses, k),
            ),
        ),
    decreases links.len() - k,
{
    let top = state.top;
    let enabled = state.ipv4_enabled;
    if k >= links.len() {
        assert(state.leaves + Seq::<LeafView>::empty() =~= state.leaves);
    } else {
        let link = links[k];
        match interface_state_of(link) {
            Err(e) => {},
            Ok(found) => {
                let prefix = interface_prefix(top, found.name);
                let own = link_leaves(prefix, found);
                let leaves = state.leaves + own;
                let following = snapshot_from(top, enabled, neighbors, links, addresses, k + 1);
                if enabled {
                    let waiting = AssemblerView {
                        phase: Phase::AwaitAddresses,
                        position: k,
                        prefix,
                        leaves,
                        ..state
                    };
                    let entries = all_address_leaves(prefix, link.index, addresses(link.index))
                        + all_neighbor_leaves(prefix, link.index, neighbors);
                    let resumed = AssemblerView {
                        leaves: leaves + all_address_leaves(
                            prefix,
                            link.index,
                            addresses(link.index),
                        ) + all_neighbor_leaves(prefix, link.index, neighbors),
                        ..waiting
                    };
                    assert(take_up_links(state, k) == (
                        waiting,
                        StepView::Ask(Request::Addresses { index: link.index }),
                    ));
                    assert(step(
                        waiting,
                        answer(neighbors, links, addresses, Request::Addresses { index: link.index }),
                    ) == take_up_links(resumed, k + 1));
                    lemma_run_from(resumed, neighbors, links, addresses, k + 1, (fuel - 1) as nat);
                    match following {
                        Ok(rest) => {
                            assert(state.leaves + ((own + entries) + rest) =~= resumed.leaves
                                + rest);
                        },
                        Err(_) => {},
                    }
                } else {
                    let next = AssemblerView { leaves, ..state };
                    lemma_run_from(next, neighbors, links, addresses, k + 1, fuel);
                    match following {
                        Ok(rest) => {
                            assert(state.leaves + ((own + Seq::<LeafView>::empty()) + rest)
                                =~= leaves + rest);
                        },
                        Err(_) => {},
                    }
                }
            },
        }
    }
}

/// An assembly whose questions the kernel answers without failing ends with the snapshot of
/// that kernel: with all its leaves, interface by interface, or with the error of the first
/// link message that cannot be decoded. It asks at most once for the neighbor table, once
/// for the interfaces and once for the addresses of each interface.
pub proof fn lemma_assembly_gives_snapshot(
    top: Seq<char>,
    ipv4_enabled: bool,
    neighbors: Seq<NeighborMessageView>,
    links: Seq<LinkMessageView>,
    addresses: spec_fn(u32) -> Seq<AddressMessageView>,
)
    ensures
        run(
            begin(top, ipv4_enabled).0,
            begin(top, ipv4_enabled).1,
            neighbors,
            links,
            addresses,
            links.len() + 2,
        ) == last_step(snapshot(top, ipv4_enabled, neighbors, links, addresses)),
{
    let first = begin(top, ipv4_enabled).0;
    let fuel = links.len() + 2;
    let result = snapshot(top, ipv4_enabled, neighbors, links, addresses);
    match result {
        Ok(leaves) => {
            assert(Seq::<LeafView>::empty() + leaves =~= leaves);
        },
        Err(_) => {},
    }
    if ipv4_enabled {
        let second = AssemblerView { phase: Phase::AwaitLinks, neighbors, ..first };
        let third = AssemblerView { links, ..second };
        assert(step(first, answer(neighbors, links, addresses, Request::Neighbors)) == (
            second,
            StepView::Ask(Request::Links),
        ));
        assert(step(second, answer(neighbors, links, addresses, Request::Links)) == take_up_links(
            third,
            0,
        ));
        lemma_run_from(third, neighbors, links, addresses, 0, links.len());
        assert(run(first, StepView::Ask(Request::Neighbors), neighbors, links, addresses, fuel)
            == run(
            second,
            StepView::Ask(Request::Links),
            neighbors,
            links,
            addresses,
            (fuel - 1) as nat,
        ));
        assert(run(
            second,
            StepView::Ask(Request::Links),
            neighbors,
            links,
            addresses,
            (fuel - 1) as nat,
        ) == run(
            take_up_links(third, 0).0,
            take_up_links(third, 0).1,
            neighbors,
            links,
            addresses,
            links.len(),
        ));
    } else {
        let second = AssemblerView { links, ..first };
        assert(step(first, answer(neighbors, links, addresses, Request::Links)) == take_up_links(
            second,
            0,
        ));
        lemma_run_from(second, neighbors, links, addresses, 0, (links.len() + 1) as nat);
        assert(run(first, StepView::Ask(Request::Links), neighbors, links, addresses, fuel) == run(
            take_up_links(second, 0).0,
            take_up_links(second, 0).1,
            neighbors,
            links,
            addresses,
            (links.len() + 1) as nat,
        ));
    }
}

} // verus!
