use crate::error::Error;
use crate::snapshot::{begin, Assembler, Step};
use vstd::prelude::*;

verus! {

/// What the schema holds for a module name: no such module, a module without any node, or
/// the module's first node with its name and whether it is a container.
#[derive(Debug, Clone, PartialEq, Eq)]
pub enum ModuleLookup {
    NotFound,
    Empty,
    Top { is_container: bool, name: String },
}

/// The path of the top-level container `name` of the module `module`.
pub open spec fn top_container_path(module: Seq<char>, name: Seq<char>) -> Seq<char> {
    "/"@ + module + ":"@ + name
}

/// The path at which the schema holds the IPv4 container of an interface, if it has one.
pub open spec fn ipv4_probe(top: Seq<char>) -> Seq<char> {
    top + "/interface/goldstone-ipv4:ipv4"@
}

/// The path of the top-level container of the module `module_name`.
///
/// `NotFound` where the schema has no such module, or the module has no top-level
/// container: it has no node at all, or its first node is not a container.
pub fn get_module_top_container(module_name: &str, lookup: &ModuleLookup) -> (r: Result<
    String,
    Error,
>)
    ensures
        match *lookup {
            ModuleLookup::Top { is_container: true, name } => r matches Ok(path) && path@
                == top_container_path(module_name@, name@),
            _ => r == Err::<String, Error>(Error::NotFound),
        },
{
    match lookup {
        ModuleLookup::Top { is_container: true, name } => {
            let mut path = String::from_str("/");
            path.append(module_name);
            path.append(":");
            path.append(name.as_str());
            Ok(path)
        },
        _ => Err(Error::NotFound),
    }
}

/// The path at which to ask the schema whether interfaces have an IPv4 container.
pub fn ipv4_probe_path(top_container: &str) -> (r: String)
    ensures
        r@ == ipv4_probe(top_container@),
{
    let mut path = String::from_str(top_container);
    path.append("/interface/goldstone-ipv4:ipv4");
    path
}

/// What the bridge knows of the schema that it serves: the module, the path of the module's
/// top-level container, and whether interfaces have addresses and neighbors in it.
#[derive(Debug, Clone, PartialEq, Eq)]
pub struct InnerServer {
    module_name: String,
    module_top_container: String,
    ipv4_enabled: bool,
}

/// The content of an [`InnerServer`].
pub struct InnerServerView {
    pub module_name: Seq<char>,
    pub module_top_container: Seq<char>,
    pub ipv4_enabled: bool,
}

impl View for InnerServer {
    type V = InnerServerView;

    closed spec fn view(&self) -> InnerServerView {
        InnerServerView {
            module_name: self.module_name@,
            module_top_container: self.module_top_container@,
            ipv4_enabled: self.ipv4_enabled,
        }
    }
}

impl InnerServer {
    /// What the bridge knows once the schema has been asked. `ipv4_nodes` is the number of
    /// nodes that the schema holds at the IPv4 probe path, or `None` where asking failed:
    /// addresses and neighbors are served exactly if there is at least one.
    pub fn new(module_name: String, module_top_container: String, ipv4_nodes: Option<usize>) -> (r:
        InnerServer)
        ensures
            r@ == (InnerServerView {
                module_name: module_name@,
                module_top_container: module_top_container@,
                ipv4_enabled: ipv4_nodes matches Some(n) && n != 0,
            }),
    {
        let ipv4_enabled = match ipv4_nodes {
            Some(n) => n != 0,
            None => false,
        };
        InnerServer { module_name, module_top_container, ipv4_enabled }
    }

    /// The module that is served.
    pub fn module_name(&self) -> (r: &str)
        ensures
            r@ == self@.module_name,
    {
        self.module_name.as_str()
    }

    /// The path of the module's top-level container.
    pub fn module_top_container(&self) -> (r: &str)
        ensures
            r@ == self@.module_top_container,
    {
        self.module_top_container.as_str()
    }

    /// Whether addresses and neighbors are served.
    pub fn ipv4_enabled(&self) -> (r: bool)
        ensures
            r == self@.ipv4_enabled,
    {
        self.ipv4_enabled
    }

    /// Begins the assembly of an operational snapshot for a pull. The path that was asked
    /// for plays no part: the snapshot is always that of the whole top-level container.
    pub fn oper_get_items_callback(&self, _path: &str) -> (r: (Assembler, Step))
        ensures
            r.0.wf(),
            (r.0@, r.1@) == begin(self@.module_top_container, self@.ipv4_enabled),
    {
        Assembler::start(self.module_top_container.as_str(), self.ipv4_enabled)
    }
}

} // verus!
