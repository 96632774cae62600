use netlink_bridge::error::Error;
use netlink_bridge::schema::{get_module_top_container, ipv4_probe_path, InnerServer, ModuleLookup};
use netlink_bridge::snapshot::{Request, Step};

#[test]
fn top_container_path_is_module_and_name() {
    let lookup = ModuleLookup::Top { is_container: true, name: "interfaces".to_string() };
    assert_eq!(
        get_module_top_container("goldstone-interfaces", &lookup),
        Ok("/goldstone-interfaces:interfaces".to_string())
    );
}

#[test]
fn unknown_module_is_not_found() {
    assert_eq!(get_module_top_container("m", &ModuleLookup::NotFound), Err(Error::NotFound));
}

#[test]
fn module_without_top_container_is_not_found() {
    assert_eq!(get_module_top_container("m", &ModuleLookup::Empty), Err(Error::NotFound));
    let leaf = ModuleLookup::Top { is_container: false, name: "interfaces".to_string() };
    assert_eq!(get_module_top_container("m", &leaf), Err(Error::NotFound));
}

#[test]
fn probe_path_lies_under_the_interface_list() {
    assert_eq!(
        ipv4_probe_path("/goldstone-interfaces:interfaces"),
        "/goldstone-interfaces:interfaces/interface/goldstone-ipv4:ipv4"
    );
}

#[test]
fn addresses_are_served_if_the_schema_has_the_container() {
    let make = |found| InnerServer::new("m".to_string(), "/m:interfaces".to_string(), found);
    assert!(make(Some(1)).ipv4_enabled());
    assert!(make(Some(3)).ipv4_enabled());
    assert!(!make(Some(0)).ipv4_enabled());
    assert!(!make(None).ipv4_enabled());
    let server = make(Some(1));
    assert_eq!(server.module_name(), "m");
    assert_eq!(server.module_top_container(), "/m:interfaces");
}

#[test]
fn a_pull_begins_by_what_the_schema_serves() {
    let with = InnerServer::new("m".to_string(), "/m:interfaces".to_string(), Some(1));
    let (_, first) = with.oper_get_items_callback("/m:interfaces/interface[name='eth0']");
    assert_eq!(first, Step::Ask(Request::Neighbors));
    let without = InnerServer::new("m".to_string(), "/m:interfaces".to_string(), Some(0));
    let (_, first) = without.oper_get_items_callback("/m:interfaces");
    assert_eq!(first, Step::Ask(Request::Links));
}
