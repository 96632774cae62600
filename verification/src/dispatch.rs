use crate::text::same_text;
use crate::xpath::{
    interface_name_from_segments, named_interface, path_under_interfaces, segments_under_interfaces,
    segments_view, split_outcome, try_xpath_split, xpath_split, PathSegment, SegmentView,
};
use vstd::prelude::*;

verus! {

/// The phase of a transaction in which the management plane delivers changes.
#[derive(Debug, Clone, Copy, PartialEq, Eq, Structural)]
pub enum EventType {
    Update,
    Change,
    Done,
    Abort,
    Enabled,
    Rpc,
}

/// What an edit did to a node.
#[derive(Debug, Clone, Copy, PartialEq, Eq, Structural)]
pub enum ChangeOperation {
    Created,
    Modified,
    Deleted,
    Moved,
}

/// One edit of the management plane: what was done, the path of the node, and the node's new
/// value if it has one.
#[derive(Debug, Clone, PartialEq, Eq)]
pub struct ChangeEvent {
    pub operation: ChangeOperation,
    pub path: String,
    pub new_value: Option<String>,
}

/// The content of a [`ChangeEvent`].
pub struct ChangeEventView {
    pub operation: ChangeOperation,
    pub path: Seq<char>,
    pub new_value: Option<Seq<char>>,
}

impl View for ChangeEvent {
    type V = ChangeEventView;

    open spec fn view(&self) -> ChangeEventView {
        ChangeEventView {
            operation: self.operation,
            path: self.path@,
            new_value: match self.new_value {
                Some(text) => Some(text@),
                None => None,
            },
        }
    }
}

/// The contents of a list of change events.
pub open spec fn changes_view(changes: Seq<ChangeEvent>) -> Seq<ChangeEventView> {
    Seq::new(changes.len(), |i: int| changes[i]@)
}

/// The command that an edit asks of the kernel: bring the interface `ifname` up or down.
#[derive(Debug, Clone, PartialEq, Eq)]
pub struct LinkCommand {
    pub ifname: String,
    pub up: bool,
}

/// The content of a [`LinkCommand`].
pub struct LinkCommandView {
    pub ifname: Seq<char>,
    pub up: bool,
}

impl View for LinkCommand {
    type V = LinkCommandView;

    open spec fn view(&self) -> LinkCommandView {
        LinkCommandView { ifname: self.ifname@, up: self.up }
    }
}

/// The contents of a list of commands.
pub open spec fn commands_view(commands: Seq<LinkCommand>) -> Seq<LinkCommandView> {
    Seq::new(commands.len(), |i: int| commands[i]@)
}

/// Whether a delivery of this phase is acted on: a change, or the first delivery that
/// presents the state at the time of subscribing.
pub open spec fn acted_on(event_type: EventType) -> bool {
    event_type == EventType::Change || event_type == EventType::Enabled
}

/// Whether an edit of this kind is considered: a creation or a modification.
pub open spec fn considered(operation: ChangeOperation) -> bool {
    operation == ChangeOperation::Created || operation == ChangeOperation::Modified
}

/// Whether the edit is one that the dispatcher can be handed: if it is considered, its path
/// lies under the interface list of `module`.
pub open spec fn in_scope(change: ChangeEventView, module: Seq<char>) -> bool {
    considered(change.operation) ==> path_under_interfaces(change.path, module)
}

/// The command that the segments of an edited path and the new value ask for: none unless
/// the path names an interface and ends in `admin-status`; else up exactly if the new value
/// is `UP`, letter for letter.
pub open spec fn command_from_segments(
    segments: Seq<SegmentView>,
    new_value: Option<Seq<char>>,
) -> Option<LinkCommandView> {
    match named_interface(segments) {
        Some(ifname) => if segments.last().name == "admin-status"@ {
            Some(LinkCommandView { ifname, up: new_value == Some("UP"@) })
        } else {
            None
        },
        None => None,
    }
}

/// The command that an edit asks for, if it asks for one: only a creation or a modification
/// does.
pub open spec fn command_for(change: ChangeEventView) -> Option<LinkCommandView> {
    if considered(change.operation) {
        command_from_segments(split_outcome(change.path)->0->Ok_0, change.new_value)
    } else {
        None
    }
}

/// The commands that a list of edits asks for, in the order of the edits.
pub open spec fn commands_for(changes: Seq<ChangeEventView>) -> Seq<LinkCommandView>
    decreases changes.len(),
{
    if changes.len() == 0 {
        Seq::empty()
    } else {
        let before = commands_for(changes.drop_last());
        match command_for(changes.last()) {
            Some(command) => before.push(command),
            None => before,
        }
    }
}

/// The content of an optional command.
pub open spec fn option_command_view(command: Option<LinkCommand>) -> Option<LinkCommandView> {
    match command {
        Some(c) => Some(c@),
        None => None,
    }
}

/// The command that the segments of an edited path and the new value ask for. The segments
/// have to lie under the interface list of `module_name`.
pub fn command_from_path_segments(
    segments: &Vec<PathSegment>,
    module_name: &str,
    new_value: &Option<String>,
) -> (r: Option<LinkCommand>)
    requires
        crate::xpath::under_interfaces(segments_view(segments@), module_name@),
    ensures
        option_command_view(r) == command_from_segments(
            segments_view(segments@),
            match *new_value {
                Some(text) => Some(text@),
                None => None,
            },
        ),
{
    match interface_name_from_segments(segments, module_name) {
        Some(ifname) => {
            let last = &segments[segments.len() - 1];
            assert(segments_view(segments@).last() == last@);
            if same_text(&last.name, "admin-status") {
                let up = match new_value {
                    Some(text) => same_text(text, "UP"),
                    None => false,
                };
                Some(LinkCommand { ifname, up })
            } else {
                None
            }
        },
        None => None,
    }
}

/// The command that one edit asks of the kernel, if it asks for one.
///
/// Only creations and modifications are considered; deletions and moves ask for nothing. A
/// considered edit asks for a command if its path names an interface and its last segment is
/// `admin-status`: up if the new value is exactly `UP`, down for any other value. The path of
/// a considered edit has to lie under the interface list of `module_name`.
pub fn change_command(change: &ChangeEvent, module_name: &str) -> (r: Option<LinkCommand>)
    requires
        in_scope(change@, module_name@),
    ensures
        option_command_view(r) == command_for(change@),
{
    match change.operation {
        ChangeOperation::Created | ChangeOperation::Modified => {
            let segments = xpath_split(change.path.as_str()).unwrap();
            command_from_path_segments(&segments, module_name, &change.new_value)
        },
        _ => None,
    }
}

/// Whether one edit is in scope for the module `module_name`.
pub fn change_in_scope(change: &ChangeEvent, module_name: &str) -> (r: bool)
    ensures
        r == in_scope(change@, module_name@),
{
    match change.operation {
        ChangeOperation::Created | ChangeOperation::Modified => {
            match try_xpath_split(change.path.as_str()) {
                Some(Ok(segments)) => segments_under_interfaces(&segments, module_name),
                _ => false,
            }
        },
        _ => true,
    }
}

/// Whether every edit of a delivery is in scope for the module `module_name`.
pub fn changes_in_scope(changes: &Vec<ChangeEvent>, module_name: &str) -> (r: bool)
    ensures
        r == (forall|i: int| 0 <= i < changes.len() ==> in_scope(#[trigger] changes[i]@, module_name@)),
{
    let mut i: usize = 0;
    while i < changes.len()
        invariant
            i <= changes.len(),
            forall|j: int| 0 <= j < i ==> in_scope(#[trigger] changes[j]@, module_name@),
        decreases changes.len() - i,
    {
        if !change_in_scope(&changes[i], module_name) {
            return false;
        }
        i = i + 1;
    }
    true
}

/// The commands that one delivery of edits asks of the kernel, in the order of the edits.
///
/// A delivery is acted on in the phases `Change` and `Enabled`, in both alike; in any other
/// phase it asks for nothing. Each edit is taken by itself, as `change_command` says: edits
/// are neither reordered nor merged. In a phase that is acted on, every edit has to be in
/// scope for `module_name`.
pub fn on_change(event_type: EventType, changes: &Vec<ChangeEvent>, module_name: &str) -> (r: Vec<
    LinkCommand,
>)
    requires
        acted_on(event_type) ==> forall|i: int|
            0 <= i < changes.len() ==> in_scope(#[trigger] changes[i]@, module_name@),
    ensures
        commands_view(r@) == if acted_on(event_type) {
            commands_for(changes_view(changes@))
        } else {
            Seq::empty()
        },
{
    let mut commands: Vec<LinkCommand> = Vec::new();
    match event_type {
        EventType::Change | EventType::Enabled => {},
        _ => {
            assert(commands_view(commands@) =~= Seq::empty());
            return commands;
        },
    }
    let ghost all = changes_view(changes@);
    let n = changes.len();
    let mut i: usize = 0;
    proof {
        assert(all.subrange(0, 0) =~= Seq::empty());
        assert(commands_view(commands@) =~= Seq::empty());
    }
    while i < n
        invariant
            n == changes.len(),
            all == changes_view(changes@),
            i <= n,
            forall|j: int| 0 <= j < changes.len() ==> in_scope(#[trigger] changes[j]@, module_name@),
            commands_view(commands@) == commands_for(all.subrange(0, i as int)),
        decreases n - i,
    {
        proof {
            let seen = all.subrange(0, i + 1);
            assert(seen.last() == changes[i as int]@);
            assert(seen.drop_last() =~= all.subrange(0, i as int));
        }
        match change_command(&changes[i], module_name) {
            Some(command) => {
                commands.push(command);
                assert(commands_view(commands@) =~= commands_for(all.subrange(0, i as int)).push(
                    command@,
                ));
            },
            None => {},
        }
        i = i + 1;
    }
    proof {
        assert(all.subrange(0, n as int) =~= all);
    }
    commands
}

/// The commands that a delivery asks for, where every edit that matters is in scope, and
/// `None` where one is not.
pub fn try_on_change(event_type: EventType, changes: &Vec<ChangeEvent>, module_name: &str) -> (r:
    Option<Vec<LinkCommand>>)
    ensures
        r matches Some(commands) ==> commands_view(commands@) == if acted_on(event_type) {
            commands_for(changes_view(changes@))
        } else {
            Seq::empty()
        },
        r is None <==> acted_on(event_type) && !(forall|i: int|
            0 <= i < changes.len() ==> in_scope(#[trigger] changes[i]@, module_name@)),
{
    let acts = match event_type {
        EventType::Change | EventType::Enabled => true,
        _ => false,
    };
    if !acts || changes_in_scope(changes, module_name) {
        Some(on_change(event_type, changes, module_name))
    } else {
        None
    }
}

} // verus!
