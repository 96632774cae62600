use netlink_bridge::decode::{
    DecodeError, KernelOperState, LinkAttribute, LinkMessage, OperStatus,
};
use netlink_bridge::error::Error;
use netlink_bridge::leaves::Leaf;
use netlink_bridge::notify::{
    link_event, notification, notification_loop, notification_path, ForwarderAction,
    ForwarderInput, KernelEvent, LinkEvent,
};

const MODULE: &str = "goldstone-interfaces";

fn link_message(name: &str, state: Option<KernelOperState>) -> LinkMessage {
    let mut attributes = vec![LinkAttribute::IfName(name.to_string())];
    if let Some(state) = state {
        attributes.push(LinkAttribute::OperState(state));
    }
    LinkMessage { index: 1, flags: 0, attributes }
}

fn payload(name: &str, status: Option<&str>) -> Vec<Leaf> {
    vec![
        Leaf {
            path: "/goldstone-interfaces:interface-link-state-notify-event/if-name".to_string(),
            value: Some(name.to_string()),
        },
        Leaf {
            path: "/goldstone-interfaces:interface-link-state-notify-event/oper-status".to_string(),
            value: status.map(|s| s.to_string()),
        },
    ]
}

#[test]
fn notification_path_is_fixed_by_the_module() {
    assert_eq!(
        notification_path(MODULE),
        "/goldstone-interfaces:interface-link-state-notify-event"
    );
}

#[test]
fn link_message_gives_one_notification() {
    for (state, word) in [
        (KernelOperState::Up, "UP"),
        (KernelOperState::Down, "DOWN"),
        (KernelOperState::Dormant, "DORMANT"),
        (KernelOperState::LowerLayerDown, "DOWN"),
    ] {
        let input = ForwarderInput::Message(KernelEvent::NewLink(link_message("eth0", Some(state))));
        assert_eq!(
            notification_loop(MODULE, &input),
            ForwarderAction::Send(payload("eth0", Some(word)))
        );
    }
}

#[test]
fn link_message_without_state_gives_a_status_without_value() {
    let event = KernelEvent::NewLink(link_message("eth3", None));
    assert_eq!(
        link_event(&event),
        Ok(Some(LinkEvent { ifname: "eth3".to_string(), oper_status: None }))
    );
    assert_eq!(
        notification_loop(MODULE, &ForwarderInput::Message(event)),
        ForwarderAction::Send(payload("eth3", None))
    );
}

#[test]
fn duplicate_transitions_are_each_forwarded() {
    let input =
        ForwarderInput::Message(KernelEvent::NewLink(link_message("e", Some(KernelOperState::Up))));
    let first = notification_loop(MODULE, &input);
    let second = notification_loop(MODULE, &input);
    assert_eq!(first, ForwarderAction::Send(payload("e", Some("UP"))));
    assert_eq!(first, second);
}

#[test]
fn other_messages_are_passed_over() {
    assert_eq!(link_event(&KernelEvent::Other), Ok(None));
    assert_eq!(
        notification_loop(MODULE, &ForwarderInput::Message(KernelEvent::Other)),
        ForwarderAction::Await
    );
}

#[test]
fn undecodable_link_message_ends_the_loop() {
    let broken = KernelEvent::NewLink(LinkMessage { index: 1, flags: 0, attributes: Vec::new() });
    assert_eq!(link_event(&broken), Err(DecodeError::MissingName));
    assert_eq!(
        notification_loop(MODULE, &ForwarderInput::Message(broken)),
        ForwarderAction::Stop(Err(Error::Decode(DecodeError::MissingName)))
    );
}

#[test]
fn send_results_decide_whether_the_loop_goes_on() {
    assert_eq!(notification_loop(MODULE, &ForwarderInput::Sent), ForwarderAction::Await);
    assert_eq!(
        notification_loop(MODULE, &ForwarderInput::SendFailed),
        ForwarderAction::Stop(Err(Error::Internal))
    );
    assert_eq!(notification_loop(MODULE, &ForwarderInput::Closed), ForwarderAction::Stop(Ok(())));
}

#[test]
fn notification_of_a_link_event() {
    let event = LinkEvent { ifname: "eth1".to_string(), oper_status: Some(OperStatus::Dormant) };
    assert_eq!(notification("m", &event), vec![
        Leaf { path: "/m:interface-link-state-notify-event/if-name".to_string(), value: Some("eth1".to_string()) },
        Leaf { path: "/m:interface-link-state-notify-event/oper-status".to_string(), value: Some("DORMANT".to_string()) },
    ]);
}
