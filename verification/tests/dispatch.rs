use netlink_bridge::command::{Dispatcher, LinkReply, LinkRequest, Turn};
use netlink_bridge::dispatch::{
    change_command, change_in_scope, changes_in_scope, command_from_path_segments, on_change,
    try_on_change, ChangeEvent, ChangeOperation, EventType, LinkCommand,
};
use netlink_bridge::error::Error;
use netlink_bridge::xpath::xpath_split;

const MODULE: &str = "goldstone-interfaces";

fn admin_status_path(ifname: &str) -> String {
    format!("/goldstone-interfaces:interfaces/interface[name='{}']/config/admin-status", ifname)
}

fn change(operation: ChangeOperation, path: &str, value: Option<&str>) -> ChangeEvent {
    ChangeEvent { operation, path: path.to_string(), new_value: value.map(|v| v.to_string()) }
}

fn command(ifname: &str, up: bool) -> LinkCommand {
    LinkCommand { ifname: ifname.to_string(), up }
}

/// Carries a delivery's commands out against a kernel that knows these interfaces, and
/// records the calls to set a link.
fn carry_out(
    commands: Vec<LinkCommand>,
    index_of: &dyn Fn(&str) -> LinkReply,
    set: &dyn Fn(u32, bool) -> LinkReply,
) -> (Vec<(u32, bool)>, Vec<Result<(), Error>>) {
    let (mut dispatcher, mut turn) = Dispatcher::start(commands);
    let mut calls = Vec::new();
    loop {
        let reply = match turn {
            Turn::Done(outcomes) => return (calls, outcomes),
            Turn::Ask(LinkRequest::GetLink { name }) => index_of(&name),
            Turn::Ask(LinkRequest::SetLink { index, up }) => {
                calls.push((index, up));
                set(index, up)
            }
        };
        turn = dispatcher.advance(reply);
    }
}

fn known(name: &str) -> LinkReply {
    match name {
        "eth0" => LinkReply::Link(Some(2)),
        "eth1" => LinkReply::Link(Some(3)),
        "broken" => LinkReply::Failed,
        _ => LinkReply::Link(None),
    }
}

#[test]
fn modified_admin_status_up_sets_the_link_up_once() {
    let changes =
        vec![change(ChangeOperation::Modified, &admin_status_path("eth1"), Some("UP"))];
    let commands = on_change(EventType::Change, &changes, MODULE);
    assert_eq!(commands, vec![command("eth1", true)]);
    let (calls, outcomes) = carry_out(commands, &known, &|_, _| LinkReply::Done);
    assert_eq!(calls, vec![(3, true)]);
    assert_eq!(outcomes, vec![Ok(())]);
}

#[test]
fn lowercase_up_sets_the_link_down() {
    let changes =
        vec![change(ChangeOperation::Modified, &admin_status_path("eth1"), Some("up"))];
    let commands = on_change(EventType::Change, &changes, MODULE);
    assert_eq!(commands, vec![command("eth1", false)]);
    let (calls, _) = carry_out(commands, &known, &|_, _| LinkReply::Done);
    assert_eq!(calls, vec![(3, false)]);
}

#[test]
fn only_the_exact_word_means_up() {
    for (value, up) in [
        (Some("UP"), true),
        (Some("DOWN"), false),
        (Some("Up"), false),
        (Some("UP "), false),
        (Some(" UP"), false),
        (Some(""), false),
        (Some("UPP"), false),
        (None, false),
    ] {
        let event = change(ChangeOperation::Created, &admin_status_path("eth0"), value);
        assert_eq!(change_command(&event, MODULE), Some(command("eth0", up)));
    }
}

#[test]
fn deletions_and_moves_are_ignored() {
    for operation in [ChangeOperation::Deleted, ChangeOperation::Moved] {
        let event = change(operation, &admin_status_path("eth0"), Some("UP"));
        assert_eq!(change_command(&event, MODULE), None);
        // their paths are not even looked at
        let event = change(operation, "not a path", None);
        assert!(change_in_scope(&event, MODULE));
        assert_eq!(change_command(&event, MODULE), None);
    }
}

#[test]
fn edits_of_other_leaves_ask_for_nothing() {
    let paths = [
        "/goldstone-interfaces:interfaces",
        "/goldstone-interfaces:interfaces/interface[name='eth0']",
        "/goldstone-interfaces:interfaces/interface[name='eth0']/config",
        "/goldstone-interfaces:interfaces/interface[name='eth0']/config/name",
        "/goldstone-interfaces:interfaces/interface[name='eth0']/admin-status/x",
    ];
    for path in paths {
        let event = change(ChangeOperation::Modified, path, Some("UP"));
        assert!(change_in_scope(&event, MODULE));
        assert_eq!(change_command(&event, MODULE), None);
    }
}

#[test]
fn admin_status_is_found_at_any_depth() {
    for path in [
        "/goldstone-interfaces:interfaces/interface[name='eth0']/admin-status",
        "/goldstone-interfaces:interfaces/interface[name='eth0']/state/admin-status",
        "/goldstone-interfaces:interfaces/interface[name='eth0']/a/b/c/admin-status",
    ] {
        let event = change(ChangeOperation::Modified, path, Some("UP"));
        assert_eq!(change_command(&event, MODULE), Some(command("eth0", true)));
    }
}

#[test]
fn command_is_read_from_given_segments() {
    let segments = xpath_split(&admin_status_path("eth9")).unwrap();
    assert_eq!(
        command_from_path_segments(&segments, MODULE, &Some("UP".to_string())),
        Some(command("eth9", true))
    );
    assert_eq!(command_from_path_segments(&segments, MODULE, &None), Some(command("eth9", false)));
}

#[test]
fn enabled_delivery_is_applied_like_a_change() {
    let changes = vec![
        change(ChangeOperation::Created, &admin_status_path("eth0"), Some("UP")),
        change(ChangeOperation::Created, &admin_status_path("eth1"), Some("DOWN")),
    ];
    let expected = vec![command("eth0", true), command("eth1", false)];
    assert_eq!(on_change(EventType::Change, &changes, MODULE), expected);
    assert_eq!(on_change(EventType::Enabled, &changes, MODULE), expected);
}

#[test]
fn other_phases_are_no_ops() {
    let changes = vec![
        change(ChangeOperation::Modified, &admin_status_path("eth0"), Some("UP")),
        change(ChangeOperation::Modified, "/somewhere/else", Some("UP")),
    ];
    for phase in [EventType::Update, EventType::Done, EventType::Abort, EventType::Rpc] {
        assert_eq!(on_change(phase, &changes, MODULE), Vec::new());
        assert_eq!(try_on_change(phase, &changes, MODULE), Some(Vec::new()));
    }
}

#[test]
fn edits_keep_their_order_and_their_duplicates() {
    let changes = vec![
        change(ChangeOperation::Modified, &admin_status_path("eth1"), Some("UP")),
        change(ChangeOperation::Deleted, &admin_status_path("eth0"), None),
        change(ChangeOperation::Modified, &admin_status_path("eth0"), Some("DOWN")),
        change(ChangeOperation::Modified, "/goldstone-interfaces:interfaces", None),
        change(ChangeOperation::Modified, &admin_status_path("eth1"), Some("UP")),
    ];
    assert_eq!(
        on_change(EventType::Change, &changes, MODULE),
        vec![command("eth1", true), command("eth0", false), command("eth1", true)]
    );
    assert_eq!(on_change(EventType::Change, &Vec::new(), MODULE), Vec::new());
}

#[test]
fn a_delivery_out_of_scope_is_told_apart() {
    let inside = change(ChangeOperation::Modified, &admin_status_path("eth0"), Some("UP"));
    let outside = change(ChangeOperation::Modified, "/other:interfaces/interface[name='e']", None);
    let unsplittable = change(ChangeOperation::Created, "/", None);
    assert!(change_in_scope(&inside, MODULE));
    assert!(!change_in_scope(&outside, MODULE));
    assert!(!change_in_scope(&unsplittable, MODULE));
    assert!(changes_in_scope(&vec![inside.clone(), inside.clone()], MODULE));
    assert!(!changes_in_scope(&vec![inside.clone(), outside.clone()], MODULE));
    assert!(changes_in_scope(&Vec::new(), MODULE));
    assert_eq!(
        try_on_change(EventType::Change, &vec![inside.clone()], MODULE),
        Some(vec![command("eth0", true)])
    );
    assert_eq!(try_on_change(EventType::Change, &vec![inside.clone(), outside], MODULE), None);
    assert_eq!(try_on_change(EventType::Enabled, &vec![unsplittable, inside], MODULE), None);
}

#[test]
fn a_failed_command_does_not_stop_the_others() {
    let commands = vec![
        command("eth0", true),
        command("missing", true),
        command("broken", false),
        command("eth1", false),
    ];
    let set = |index: u32, _: bool| if index == 2 { LinkReply::Failed } else { LinkReply::Done };
    let (calls, outcomes) = carry_out(commands, &known, &set);
    assert_eq!(calls, vec![(2, true), (3, false)]);
    assert_eq!(
        outcomes,
        vec![Err(Error::Internal), Err(Error::Internal), Err(Error::Internal), Ok(())]
    );
}

#[test]
fn dispatch_asks_for_the_index_before_it_sets() {
    let (mut dispatcher, first) = Dispatcher::start(vec![command("eth1", true)]);
    assert_eq!(first, Turn::Ask(LinkRequest::GetLink { name: "eth1".to_string() }));
    assert_eq!(
        dispatcher.advance(LinkReply::Link(Some(7))),
        Turn::Ask(LinkRequest::SetLink { index: 7, up: true })
    );
    assert_eq!(dispatcher.advance(LinkReply::Done), Turn::Done(vec![Ok(())]));
    // nothing is left afterwards
    assert_eq!(dispatcher.advance(LinkReply::Done), Turn::Done(Vec::new()));
}

#[test]
fn an_empty_delivery_is_done_at_once() {
    let (_, first) = Dispatcher::start(Vec::new());
    assert_eq!(first, Turn::Done(Vec::new()));
}

#[test]
fn answers_that_were_not_asked_for_fail_the_command() {
    let (mut dispatcher, _) = Dispatcher::start(vec![command("a", true), command("b", true)]);
    // the index was asked for, not the setting
    assert_eq!(
        dispatcher.advance(LinkReply::Done),
        Turn::Ask(LinkRequest::GetLink { name: "b".to_string() })
    );
    assert_eq!(
        dispatcher.advance(LinkReply::Link(Some(1))),
        Turn::Ask(LinkRequest::SetLink { index: 1, up: true })
    );
    // the setting was asked for, not an index
    assert_eq!(
        dispatcher.advance(LinkReply::Link(Some(1))),
        Turn::Done(vec![Err(Error::Internal), Err(Error::Internal)])
    );
}
