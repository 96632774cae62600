use crate::dispatch::{commands_view, LinkCommand, LinkCommandView};
use crate::error::Error;
use vstd::prelude::*;

verus! {

/// A call that the dispatcher wants made to the kernel.
#[derive(Debug, Clone, PartialEq, Eq)]
pub enum LinkRequest {
    /// Look the interface of this name up.
    GetLink { name: String },
    /// Bring the interface with this index up or down.
    SetLink { index: u32, up: bool },
}

/// The content of a [`LinkRequest`].
pub enum LinkRequestView {
    GetLink { name: Seq<char> },
    SetLink { index: u32, up: bool },
}

impl View for LinkRequest {
    type V = LinkRequestView;

    open spec fn view(&self) -> LinkRequestView {
        match self {
            LinkRequest::GetLink { name } => LinkRequestView::GetLink { name: name@ },
            LinkRequest::SetLink { index, up } => LinkRequestView::SetLink {
                index: *index,
                up: *up,
            },
        }
    }
}

/// The kernel's answer to a [`LinkRequest`].
#[derive(Debug, Clone, Copy, PartialEq, Eq, Structural)]
pub enum LinkReply {
    /// The index of the interface that was looked up, or `None` if there is none of that
    /// name.
    Link(Option<u32>),
    /// The interface was set as asked.
    Done,
    /// The call failed.
    Failed,
}

/// What the dispatcher wants next: a call, or nothing more, with the outcome of each command
/// of the delivery in the order of the commands.
#[derive(Debug, Clone, PartialEq, Eq)]
pub enum Turn {
    Ask(LinkRequest),
    Done(Vec<Result<(), Error>>),
}

/// The content of a [`Turn`].
pub enum TurnView {
    Ask(LinkRequestView),
    Done(Seq<Result<(), Error>>),
}

impl View for Turn {
    type V = TurnView;

    open spec fn view(&self) -> TurnView {
        match self {
            Turn::Ask(request) => TurnView::Ask(request@),
            Turn::Done(outcomes) => TurnView::Done(outcomes@),
        }
    }
}

/// What the dispatcher is waiting for.
#[derive(Debug, Clone, Copy, PartialEq, Eq, Structural)]
pub enum Stage {
    /// The index of the interface that the current command names.
    Resolving,
    /// The kernel's word that the interface was set.
    Setting,
    /// Nothing: every command has its outcome.
    Finished,
}

/// The state of the dispatch of one delivery's commands.
#[derive(Debug)]
pub struct Dispatcher {
    commands: Vec<LinkCommand>,
    position: usize,
    stage: Stage,
    outcomes: Vec<Result<(), Error>>,
}

/// The content of a [`Dispatcher`]: the commands of the delivery, the position of the one
/// that is being carried out, the stage, and the outcomes of the commands before it.
pub struct DispatcherView {
    pub commands: Seq<LinkCommandView>,
    pub position: int,
    pub stage: Stage,
    pub outcomes: Seq<Result<(), Error>>,
}

/// Turns to the command at position `k`: its interface is looked up; or, behind the last
/// command, the dispatch ends with the outcomes.
pub open spec fn turn_to(state: DispatcherView, k: int) -> (DispatcherView, TurnView) {
    if 0 <= k < state.commands.len() {
        (
            DispatcherView { position: k, stage: Stage::Resolving, ..state },
            TurnView::Ask(LinkRequestView::GetLink { name: state.commands[k].ifname }),
        )
    } else {
        (
            DispatcherView { position: k, stage: Stage::Finished, outcomes: Seq::empty(), ..state },
            TurnView::Done(state.outcomes),
        )
    }
}

/// The state in which the dispatch of `commands` begins, and its first turn.
pub open spec fn begin(commands: Seq<LinkCommandView>) -> (DispatcherView, TurnView) {
    turn_to(
        DispatcherView { commands, position: 0, stage: Stage::Resolving, outcomes: Seq::empty() },
        0,
    )
}

/// The state `state` with `outcome` noted for the current command, turned to the next.
pub open spec fn settle(state: DispatcherView, outcome: Result<(), Error>) -> (
    DispatcherView,
    TurnView,
) {
    turn_to(
        DispatcherView { outcomes: state.outcomes.push(outcome), ..state },
        state.position + 1,
    )
}

/// The state that follows `state` on the answer `reply`, and the next turn.
///
/// An interface that was found is set up or down as its command says. One that was not
/// found, a failed call or an answer that was not asked for settles the command with
/// `Error::Internal`; the kernel's word that the interface was set settles it with success.
/// A settled command is followed by the next one, whatever its outcome was.
pub open spec fn step(state: DispatcherView, reply: LinkReply) -> (DispatcherView, TurnView) {
    match (state.stage, reply) {
        (Stage::Resolving, LinkReply::Link(Some(index))) => (
            DispatcherView { stage: Stage::Setting, ..state },
            TurnView::Ask(
                LinkRequestView::SetLink { index, up: state.commands[state.position].up },
            ),
        ),
        (Stage::Resolving, _) => settle(state, Err(Error::Internal)),
        (Stage::Setting, LinkReply::Done) => settle(state, Ok(())),
        (Stage::Setting, _) => settle(state, Err(Error::Internal)),
        (Stage::Finished, _) => (state, TurnView::Done(Seq::empty())),
    }
}

/// Whether a state is one that a dispatch can be in: until it has finished, the current
/// command is one of the delivery, and each command before it has its outcome.
pub open spec fn consistent(state: DispatcherView) -> bool {
    state.stage != Stage::Finished ==> 0 <= state.position < state.commands.len()
        && state.outcomes.len() == state.position
}

/// No command is left out: a step keeps the state consistent, and the step that ends a
/// dispatch hands back exactly one outcome for each command of the delivery, whatever the
/// kernel answered to the commands before.
pub proof fn lemma_every_command_settled(state: DispatcherView, reply: LinkReply)
    requires
        consistent(state),
        state.stage != Stage::Finished,
    ensures
        consistent(step(state, reply).0),
        step(state, reply).0.commands == state.commands,
        step(state, reply).1 matches TurnView::Done(outcomes) ==> outcomes.len()
            == state.commands.len(),
{
}

impl View for Dispatcher {
    type V = DispatcherView;

    closed spec fn view(&self) -> DispatcherView {
        DispatcherView {
            commands: commands_view(self.commands@),
            position: self.position as int,
            stage: self.stage,
            outcomes: self.outcomes@,
        }
    }
}

impl Dispatcher {
    /// Whether the state is one that a dispatch can be in.
    pub closed spec fn wf(&self) -> bool {
        consistent(self@)
    }

    fn turn(&mut self, k: usize) -> (r: Turn)
        requires
            k <= old(self).commands.len(),
            old(self).outcomes.len() == k,
        ensures
            final(self).wf(),
            (final(self)@, r@) == turn_to(old(self)@, k as int),
    {
        self.position = k;
        if k < self.commands.len() {
            self.stage = Stage::Resolving;
            assert(self@.commands[k as int] == self.commands[k as int]@);
            Turn::Ask(LinkRequest::GetLink { name: self.commands[k].ifname.clone() })
        } else {
            let mut outcomes: Vec<Result<(), Error>> = Vec::new();
            std::mem::swap(&mut self.outcomes, &mut outcomes);
            self.stage = Stage::Finished;
            assert(self.outcomes@ =~= Seq::empty());
            Turn::Done(outcomes)
        }
    }

    /// Begins the dispatch of the commands of one delivery, and says what to ask the kernel
    /// first.
    pub fn start(commands: Vec<LinkCommand>) -> (r: (Dispatcher, Turn))
        ensures
            r.0.wf(),
            (r.0@, r.1@) == begin(commands_view(commands@)),
    {
        let mut state = Dispatcher {
            commands,
            position: 0,
            stage: Stage::Resolving,
            outcomes: Vec::new(),
        };
        assert(state.outcomes@ =~= Seq::empty());
        let turn = state.turn(0);
        (state, turn)
    }

    /// Takes the kernel's answer to the last call and says what comes next.
    pub fn advance(&mut self, reply: LinkReply) -> (r: Turn)
        requires
            old(self).wf(),
        ensures
            final(self).wf(),
            (final(self)@, r@) == step(old(self)@, reply),
    {
        assert(self@.commands.len() == self.commands.len());
        match (self.stage, reply) {
            (Stage::Finished, _) => Turn::Done(Vec::new()),
            (Stage::Resolving, LinkReply::Link(Some(index))) => {
                self.stage = Stage::Setting;
                assert(self@.commands[self.position as int] == self.commands[self.position as int]@);
                Turn::Ask(LinkRequest::SetLink { index, up: self.commands[self.position].up })
            },
            (Stage::Setting, LinkReply::Done) => {
                self.outcomes.push(Ok(()));
                self.turn(self.position + 1)
            },
            _ => {
                self.outcomes.push(Err(Error::Internal));
                self.turn(self.position + 1)
            },
        }
    }
}

/// What a kernel answers to a call, if it answers `lookup(name)` when asked for the
/// interface `name` and `set(index, up)` when asked to set the interface `index`.
pub open spec fn answer(
    lookup: spec_fn(Seq<char>) -> LinkReply,
    set: spec_fn(u32, bool) -> LinkReply,
    request: LinkRequestView,
) -> LinkReply {
    match request {
        LinkRequestView::GetLink { name } => lookup(name),
        LinkRequestView::SetLink { index, up } => set(index, up),
    }
}

/// The calls that one command takes: its interface is looked up, and if it is found, it is
/// set once, by the index that was found, up or down as the command says.
pub open spec fn command_calls(
    lookup: spec_fn(Seq<char>) -> LinkReply,
    command: LinkCommandView,
) -> Seq<LinkRequestView> {
    match lookup(command.ifname) {
        LinkReply::Link(Some(index)) => seq![
            LinkRequestView::GetLink { name: command.ifname },
            LinkRequestView::SetLink { index, up: command.up },
        ],
        _ => seq![LinkRequestView::GetLink { name: command.ifname }],
    }
}

/// The outcome of one command: success if its interface is found and the kernel sets it,
/// `Error::Internal` in every other case.
pub open spec fn command_outcome(
    lookup: spec_fn(Seq<char>) -> LinkReply,
    set: spec_fn(u32, bool) -> LinkReply,
    command: LinkCommandView,
) -> Result<(), Error> {
    match lookup(command.ifname) {
        LinkReply::Link(Some(index)) => if set(index, command.up) == LinkReply::Done {
            Ok(())
        } else {
            Err(Error::Internal)
        },
        _ => Err(Error::Internal),
    }
}

/// The calls that the commands from position `k` on take, command by command.
pub open spec fn calls_from(
    lookup: spec_fn(Seq<char>) -> LinkReply,
    commands: Seq<LinkCommandView>,
    k: int,
) -> Seq<LinkRequestView>
    decreases commands.len() - k,
{
    if k < 0 || k >= commands.len() {
        Seq::empty()
    } else {
        command_calls(lookup, commands[k]) + calls_from(lookup, commands, k + 1)
    }
}

/// The outcome of each command of a delivery.
pub open spec fn outcomes_of(
    lookup: spec_fn(Seq<char>) -> LinkReply,
    set: spec_fn(u32, bool) -> LinkReply,
    commands: Seq<LinkCommandView>,
) -> Seq<Result<(), Error>> {
    Seq::new(commands.len(), |i: int| command_outcome(lookup, set, commands[i]))
}

/// The calls that a dispatch makes while at most `fuel` of them are answered by that kernel,
/// and the turn at which it then stands.
pub open spec fn run(
    state: DispatcherView,
    turn: TurnView,
    lookup: spec_fn(Seq<char>) -> LinkReply,
    set: spec_fn(u32, bool) -> LinkReply,
    fuel: nat,
) -> (Seq<LinkRequestView>, TurnView)
    decreases fuel,
{
    match turn {
        TurnView::Ask(request) if fuel > 0 => {
            let next = step(state, answer(lookup, set, request));
            let rest = run(next.0, next.1, lookup, set, (fuel - 1) as nat);
            (seq![request] + rest.0, rest.1)
        },
        _ => (Seq::empty(), turn),
    }
}

proof fn lemma_run_from(
    base: DispatcherView,
    lookup: spec_fn(Seq<char>) -> LinkReply,
    set: spec_fn(u32, bool) -> LinkReply,
    k: int,
    fuel: nat,
)
    requires
        0 <= k <= base.commands.len(),
        base.outcomes == outcomes_of(lookup, set, base.commands).subrange(0, k),
        fuel >= 2 * (base.commands.len() - k),
    ensures
        run(turn_to(base, k).0, turn_to(base, k).1, lookup, set, fuel) == (
            calls_from(lookup, base.commands, k),
            TurnView::Done(outcomes_of(lookup, set, base.commands)),
        ),
    decreases base.commands.len() - k,
{
    let commands = base.commands;
    let all = outcomes_of(lookup, set, commands);
    if k >= commands.len() {
        assert(all.subrange(0, k) =~= all);
    } else {
        let command = commands[k];
        let own = LinkRequestView::GetLink { name: command.ifname };
        let asking = DispatcherView { position: k, stage: Stage::Resolving, ..base };
        assert(turn_to(base, k) == (asking, TurnView::Ask(own)));
        let outcome = command_outcome(lookup, set, command);
        let settled = DispatcherView { outcomes: base.outcomes.push(outcome), ..asking };
        assert(settled.outcomes =~= all.subrange(0, k + 1));
        match lookup(command.ifname) {
            LinkReply::Link(Some(index)) => {
                let setting = DispatcherView { stage: Stage::Setting, ..asking };
                let second = LinkRequestView::SetLink { index, up: command.up };
                let after = DispatcherView { outcomes: base.outcomes.push(outcome), ..setting };
                assert(step(asking, answer(lookup, set, own)) == (setting, TurnView::Ask(second)));
                assert(step(setting, answer(lookup, set, second)) == turn_to(after, k + 1));
                assert(turn_to(after, k + 1) == turn_to(settled, k + 1));
                lemma_run_from(settled, lookup, set, k + 1, (fuel - 2) as nat);
                let rest = run(
                    turn_to(settled, k + 1).0,
                    turn_to(settled, k + 1).1,
                    lookup,
                    set,
                    (fuel - 2) as nat,
                );
                assert(run(setting, TurnView::Ask(second), lookup, set, (fuel - 1) as nat) == (
                    seq![second] + rest.0,
                    rest.1,
                ));
                assert(seq![own] + (seq![second] + calls_from(lookup, commands, k + 1))
                    =~= command_calls(lookup, command) + calls_from(lookup, commands, k + 1));
            },
            _ => {
                assert(step(asking, answer(lookup, set, own)) == turn_to(settled, k + 1));
                lemma_run_from(settled, lookup, set, k + 1, (fuel - 1) as nat);
                assert(seq![own] + calls_from(lookup, commands, k + 1) =~= command_calls(
                    lookup,
                    command,
                ) + calls_from(lookup, commands, k + 1));
            },
        }
    }
}

/// A dispatch whose calls the kernel answers takes the commands one by one in their order:
/// each interface is looked up once and, if it is found, set exactly once, by the index that
/// was found and in the direction of its command. The dispatch ends with one outcome for
/// each command, and the outcome of a command does not depend on those of the others.
pub proof fn lemma_dispatch_carries_out_each_command(
    commands: Seq<LinkCommandView>,
    lookup: spec_fn(Seq<char>) -> LinkReply,
    set: spec_fn(u32, bool) -> LinkReply,
)
    ensures
        run(begin(commands).0, begin(commands).1, lookup, set, 2 * commands.len()) == (
            calls_from(lookup, commands, 0),
            TurnView::Done(outcomes_of(lookup, set, commands)),
        ),
{
    let base = DispatcherView {
        commands,
        position: 0,
        stage: Stage::Resolving,
        outcomes: Seq::empty(),
    };
    assert(outcomes_of(lookup, set, commands).subrange(0, 0) =~= Seq::empty());
    lemma_run_from(base, lookup, set, 0, 2 * commands.len());
}

} // verus!
