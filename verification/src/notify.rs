use crate::decode::{
    get_link_info_from_nlas, link_info_of, DecodeError, LinkMessage, LinkMessageView, OperStatus,
};
use crate::error::Error;
use crate::leaves::{leaves_view, Leaf, LeafView};
use vstd::prelude::*;

verus! {

/// A message on the kernel's event stream.
#[derive(Debug, Clone, PartialEq, Eq)]
pub enum KernelEvent {
    /// A link is new or has changed.
    NewLink(LinkMessage),
    /// Any other kind of message.
    Other,
}

/// The content of a [`KernelEvent`].
pub enum KernelEventView {
    NewLink(LinkMessageView),
    Other,
}

impl View for KernelEvent {
    type V = KernelEventView;

    open spec fn view(&self) -> KernelEventView {
        match self {
            KernelEvent::NewLink(message) => KernelEventView::NewLink(message@),
            KernelEvent::Other => KernelEventView::Other,
        }
    }
}

/// What a link message tells the management plane: the interface, and its operational
/// status where the message reports one.
#[derive(Debug, Clone, PartialEq, Eq)]
pub struct LinkEvent {
    pub ifname: String,
    pub oper_status: Option<OperStatus>,
}

/// The content of a [`LinkEvent`].
pub struct LinkEventView {
    pub ifname: Seq<char>,
    pub oper_status: Option<OperStatus>,
}

impl View for LinkEvent {
    type V = LinkEventView;

    open spec fn view(&self) -> LinkEventView {
        LinkEventView { ifname: self.ifname@, oper_status: self.oper_status }
    }
}

/// What happens on the forwarder's side between two of its steps.
#[derive(Debug, Clone, PartialEq, Eq)]
pub enum ForwarderInput {
    /// A message arrived on the kernel's event stream.
    Message(KernelEvent),
    /// The notification that was to be sent is sent.
    Sent,
    /// The notification could not be sent.
    SendFailed,
    /// The event stream has ended.
    Closed,
}

/// The content of a [`ForwarderInput`].
pub enum ForwarderInputView {
    Message(KernelEventView),
    Sent,
    SendFailed,
    Closed,
}

impl View for ForwarderInput {
    type V = ForwarderInputView;

    open spec fn view(&self) -> ForwarderInputView {
        match self {
            ForwarderInput::Message(event) => ForwarderInputView::Message(event@),
            ForwarderInput::Sent => ForwarderInputView::Sent,
            ForwarderInput::SendFailed => ForwarderInputView::SendFailed,
            ForwarderInput::Closed => ForwarderInputView::Closed,
        }
    }
}

/// What the forwarder does next.
#[derive(Debug, PartialEq, Eq)]
pub enum ForwarderAction {
    /// Wait for the next message.
    Await,
    /// Send a notification with these leaves.
    Send(Vec<Leaf>),
    /// End the loop with this result.
    Stop(Result<(), Error>),
}

/// The content of a [`ForwarderAction`].
pub enum ForwarderActionView {
    Await,
    Send(Seq<LeafView>),
    Stop(Result<(), Error>),
}

impl View for ForwarderAction {
    type V = ForwarderActionView;

    open spec fn view(&self) -> ForwarderActionView {
        match self {
            ForwarderAction::Await => ForwarderActionView::Await,
            ForwarderAction::Send(leaves) => ForwarderActionView::Send(leaves_view(leaves@)),
            ForwarderAction::Stop(result) => ForwarderActionView::Stop(*result),
        }
    }
}

/// The path under which the module `module` notifies of link events.
pub open spec fn notification_prefix(module: Seq<char>) -> Seq<char> {
    "/"@ + module + ":interface-link-state-notify-event"@
}

/// The link event that a kernel message carries: none for a message of another kind, the
/// error for a link message that cannot be decoded.
pub open spec fn link_event_of(event: KernelEventView) -> Result<Option<LinkEventView>, DecodeError> {
    match event {
        KernelEventView::NewLink(message) => match link_info_of(message.attributes) {
            Ok(info) => Ok(Some(LinkEventView { ifname: info.name, oper_status: info.oper_status })),
            Err(e) => Err(e),
        },
        KernelEventView::Other => Ok(None),
    }
}

/// The leaves of the notification for a link event: the interface name, and the operational
/// status, which has no value where the event reports none.
pub open spec fn notification_leaves(module: Seq<char>, event: LinkEventView) -> Seq<LeafView> {
    seq![
        LeafView { path: notification_prefix(module) + "/if-name"@, value: Some(event.ifname) },
        LeafView {
            path: notification_prefix(module) + "/oper-status"@,
            value: match event.oper_status {
                Some(status) => Some(status.word()),
                None => None,
            },
        },
    ]
}

/// What the forwarder does on an input. A link message is decoded and gives one
/// notification; a link message that cannot be decoded ends the loop with the error; any
/// other message is passed over. A notification that was sent is followed by the next
/// message; one that could not be sent ends the loop with `Error::Internal`. The end of the
/// stream ends the loop without an error.
pub open spec fn forwarder_action(module: Seq<char>, input: ForwarderInputView) -> ForwarderActionView {
    match input {
        ForwarderInputView::Message(event) => match link_event_of(event) {
            Ok(Some(link_event)) => ForwarderActionView::Send(
                notification_leaves(module, link_event),
            ),
            Ok(None) => ForwarderActionView::Await,
            Err(e) => ForwarderActionView::Stop(Err(Error::Decode(e))),
        },
        ForwarderInputView::Sent => ForwarderActionView::Await,
        ForwarderInputView::SendFailed => ForwarderActionView::Stop(Err(Error::Internal)),
        ForwarderInputView::Closed => ForwarderActionView::Stop(Ok(())),
    }
}

/// The content of what reading a link event out of a message hands back.
pub open spec fn link_event_result_view(r: Result<Option<LinkEvent>, DecodeError>) -> Result<
    Option<LinkEventView>,
    DecodeError,
> {
    match r {
        Ok(Some(event)) => Ok(Some(event@)),
        Ok(None) => Ok(None),
        Err(e) => Err(e),
    }
}

/// The path under which the module `module_name` notifies of link events.
pub fn notification_path(module_name: &str) -> (r: String)
    ensures
        r@ == notification_prefix(module_name@),
{
    let mut path = String::from_str("/");
    path.append(module_name);
    path.append(":interface-link-state-notify-event");
    path
}

/// Reads the link event out of a kernel message, if it carries one.
pub fn link_event(event: &KernelEvent) -> (r: Result<Option<LinkEvent>, DecodeError>)
    ensures
        link_event_result_view(r) == link_event_of(event@),
{
    match event {
        KernelEvent::NewLink(message) => match get_link_info_from_nlas(&message.attributes) {
            Ok(info) => Ok(Some(LinkEvent { ifname: info.name, oper_status: info.oper_status })),
            Err(e) => Err(e),
        },
        KernelEvent::Other => Ok(None),
    }
}

/// The leaves of the notification for a link event of the module `module_name`.
pub fn notification(module_name: &str, event: &LinkEvent) -> (r: Vec<Leaf>)
    ensures
        leaves_view(r@) == notification_leaves(module_name@, event@),
{
    let prefix = notification_path(module_name);
    let status = match event.oper_status {
        Some(status) => Some(String::from_str(status.text())),
        None => None,
    };
    let mut name_path = prefix.clone();
    name_path.append("/if-name");
    let mut status_path = prefix;
    status_path.append("/oper-status");
    let mut leaves: Vec<Leaf> = Vec::new();
    leaves.push(Leaf { path: name_path, value: Some(event.ifname.clone()) });
    leaves.push(Leaf { path: status_path, value: status });
    assert(leaves_view(leaves@) =~= notification_leaves(module_name@, event@));
    leaves
}

/// One step of the link event forwarder: what to do on `input`.
pub fn notification_loop(module_name: &str, input: &ForwarderInput) -> (r: ForwarderAction)
    ensures
        r@ == forwarder_action(module_name@, input@),
{
    match input {
        ForwarderInput::Message(event) => match link_event(event) {
            Ok(Some(found)) => ForwarderAction::Send(notification(module_name, &found)),
            Ok(None) => ForwarderAction::Await,
            Err(e) => ForwarderAction::Stop(Err(Error::Decode(e))),
        },
        ForwarderInput::Sent => ForwarderAction::Await,
        ForwarderInput::SendFailed => ForwarderAction::Stop(Err(Error::Internal)),
        ForwarderInput::Closed => ForwarderAction::Stop(Ok(())),
    }
}

} // verus!
