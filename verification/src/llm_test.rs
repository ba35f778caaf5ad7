//! Helpers of the LLM template's test process: picking the client nodes,
//! naming the log file and framing log lines.
use vstd::prelude::*;
use crate::text::{chars_of, contains_exec, contains_sub, push_all, push_str, string_of};
use crate::llm_state::{Address, AddressView, address_view};

verus! {

pub open spec fn addresses_view(v: Seq<Address>) -> Seq<AddressView> {
    v.map_values(|a: Address| address_view(a))
}

pub open spec fn strings_view(v: Seq<String>) -> Seq<Seq<char>> {
    v.map_values(|s: String| s@)
}

/// The node names that hold `client`, in order.
pub open spec fn client_nodes(names: Seq<Seq<char>>) -> Seq<Seq<char>>
    decreases names.len(),
{
    if names.len() == 0 {
        seq![]
    } else if contains_sub(names.last(), "client"@) {
        client_nodes(names.drop_last()).push(names.last())
    } else {
        client_nodes(names.drop_last())
    }
}

/// The template process on the given node.
pub open spec fn client_address(node: Seq<char>) -> AddressView {
    (node, "llm-template"@, "llm-template"@, "template.os"@)
}

pub open spec fn client_addresses(nodes: Seq<Seq<char>>) -> Seq<AddressView> {
    nodes.map_values(|n: Seq<char>| client_address(n))
}

/// The template process's address on every node whose name holds `client`;
/// an error when there is none.
pub fn get_client_addresses(node_names: &Vec<String>) -> (r: Result<Vec<Address>, String>)
    ensures
        client_nodes(strings_view(node_names@)).len() == 0 ==> (r matches Err(e) && e@
            == "No client addresses found"@),
        client_nodes(strings_view(node_names@)).len() > 0 ==> (r matches Ok(v) && addresses_view(
            v@,
        ) == client_addresses(client_nodes(strings_view(node_names@)))),
{
    let ghost names = strings_view(node_names@);
    let pattern = chars_of("client");
    let mut out: Vec<Address> = Vec::new();
    let mut i: usize = 0;
    while i < node_names.len()
        invariant
            names == strings_view(node_names@),
            pattern@ == "client"@,
            i <= node_names.len(),
            addresses_view(out@) == client_addresses(client_nodes(names.take(i as int))),
        decreases node_names.len() - i,
    {
        let name = &node_names[i];
        assert(names.take(i + 1).drop_last() =~= names.take(i as int));
        assert(names.take(i + 1).last() == name@);
        let ghost before = out@;
        if contains_exec(&chars_of(name.as_str()), &pattern) {
            out.push(
                Address {
                    node: name.clone(),
                    process: "llm-template".to_owned(),
                    package: "llm-template".to_owned(),
                    publisher: "template.os".to_owned(),
                },
            );
            assert(addresses_view(out@) =~= addresses_view(before).push(client_address(name@)));
            assert(client_addresses(client_nodes(names.take(i + 1))) =~= client_addresses(
                client_nodes(names.take(i as int)),
            ).push(client_address(name@)));
        }
        i = i + 1;
    }
    assert(names.take(node_names.len() as int) =~= names);
    if out.len() == 0 {
        return Err("No client addresses found".to_owned());
    }
    Ok(out)
}

/// The path of the test log inside the drive at `drive_path`.
pub fn create_log_file(drive_path: &str) -> (r: String)
    ensures
        r@ == drive_path@ + "/llm-template-test.log"@,
{
    let mut v = chars_of(drive_path);
    push_str(&mut v, "/llm-template-test.log");
    string_of(&v)
}

/// Appends `msg` and a line break to the log.
pub fn write_log(log: &mut String, msg: &str)
    ensures
        final(log)@ == old(log)@ + msg@ + seq!['\n'],
{
    let mut v = chars_of(log.as_str());
    push_all(&mut v, &chars_of(msg));
    v.push('\n');
    *log = string_of(&v);
}

} // verus!

verus! {

/// How the test process starts, given the first message it receives.
pub enum TestStart {
    /// The test fails with this reason.
    Fail(String),
    /// The message came from another node; it is refused.
    Foreign,
    /// This node is not the master: it reports success and runs nothing.
    NotMaster,
    /// This node is the master: it tests the listed nodes.
    Master(Vec<String>),
}

/// Decides how the test starts: the message must be a request from our
/// node holding a run request (`node_names` is its node list, `None` when
/// the body is no run request) naming at least two nodes, the first of
/// which is the master.
pub fn init_tests(our_node: &str, is_request: bool, source_node: &str, node_names: Option<Vec<String>>) -> (r: TestStart)
    ensures
        !is_request ==> (r matches TestStart::Fail(m) && m@ == "received-non-request"@),
        is_request && our_node@ != source_node@ ==> r is Foreign,
        is_request && our_node@ == source_node@ ==> match node_names {
            None => r matches TestStart::Fail(m) && m@ == "error-parsing-message-body"@,
            Some(ns) => if ns@.len() < 2 {
                r matches TestStart::Fail(m) && m@ == "not-enough-nodes"@
            } else if our_node@ != ns@[0]@ {
                r is NotMaster
            } else {
                r matches TestStart::Master(v) && strings_view(v@) == strings_view(ns@)
            },
        },
{
    if !is_request {
        return TestStart::Fail("received-non-request".to_owned());
    }
    if !crate::naming::eq_lit(&chars_of(our_node), source_node) {
        return TestStart::Foreign;
    }
    match node_names {
        None => TestStart::Fail("error-parsing-message-body".to_owned()),
        Some(ns) => {
            if ns.len() < 2 {
                return TestStart::Fail("not-enough-nodes".to_owned());
            }
            if !crate::naming::eq_lit(&chars_of(ns[0].as_str()), our_node) {
                return TestStart::NotMaster;
            }
            TestStart::Master(ns)
        },
    }
}

} // verus!
