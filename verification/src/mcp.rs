//! The tool-invocation checks made before the tool execution service is
//! contacted: the named server must be connected, it must offer the named
//! tool, and the arguments must form a JSON object.  The connection and the
//! call itself are I/O and live outside the library.

use vstd::prelude::*;
use crate::json::{JsonValue, JsonView};
use crate::model::{McpContext, McpServerContextView};

verus! {

/// The position of the first connected server with this name, if any.
pub open spec fn server_index_of(ss: Seq<McpServerContextView>, name: Seq<char>) -> Option<int>
    decreases ss,
{
    if ss.len() == 0 {
        None
    } else if ss[0].name == name {
        Some(0int)
    } else {
        match server_index_of(ss.subrange(1, ss.len() as int), name) {
            Some(j) => Some(j + 1),
            None => None,
        }
    }
}

pub proof fn lemma_server_index_of(ss: Seq<McpServerContextView>, name: Seq<char>)
    ensures
        match server_index_of(ss, name) {
            Some(j) => 0 <= j < ss.len() && ss[j].name == name && (forall|i: int|
                0 <= i < j ==> ss[i].name != name),
            None => forall|i: int| 0 <= i < ss.len() ==> ss[i].name != name,
        },
    decreases ss,
{
    if ss.len() > 0 {
        let rest = ss.subrange(1, ss.len() as int);
        lemma_server_index_of(rest, name);
        assert(forall|i: int| 1 <= i < ss.len() ==> ss[i] == rest[i - 1]);
    }
}

/// Whether the server at `j` offers a tool of this name.
pub open spec fn offers_tool(s: McpServerContextView, tool: Seq<char>) -> bool {
    exists|i: int| 0 <= i < s.tools.len() && (#[trigger] s.tools[i]).name == tool
}

pub open spec fn server_not_found_text(name: Seq<char>) -> Seq<char> {
    "Server not found: "@ + name
}

pub open spec fn tool_not_found_text(name: Seq<char>) -> Seq<char> {
    "Tool not found: "@ + name
}

pub open spec fn arguments_not_object_text() -> Seq<char> {
    "Tool arguments must be a JSON object"@
}

/// Whether an invocation may go out, and the exact refusal otherwise: an
/// unknown server, then an unknown tool on it, then non-object arguments.
pub open spec fn invocation_check(
    servers: Seq<McpServerContextView>,
    server_name: Seq<char>,
    tool_name: Seq<char>,
    args: JsonView,
) -> Result<(), Seq<char>> {
    match server_index_of(servers, server_name) {
        None => Err(server_not_found_text(server_name)),
        Some(j) => if !offers_tool(servers[j], tool_name) {
            Err(tool_not_found_text(tool_name))
        } else if !(args is Obj) {
            Err(arguments_not_object_text())
        } else {
            Ok(())
        },
    }
}

/// Checks one tool invocation against the connected catalog, exactly as
/// `invocation_check` says; only an `Ok` invocation is handed to the tool
/// execution service.
#[verifier::loop_isolation(false)]
pub fn prepare_invocation(
    catalog: &McpContext,
    server_name: &String,
    tool_name: &String,
    args: &JsonValue,
) -> (r: Result<(), String>)
    ensures
        match r {
            Ok(()) => invocation_check(catalog@.servers, server_name@, tool_name@, args@)
                is Ok,
            Err(e) => invocation_check(catalog@.servers, server_name@, tool_name@, args@)
                == Err::<(), Seq<char>>(e@),
        },
{
    proof {
        lemma_server_index_of(catalog@.servers, server_name@);
    }
    let mut i: usize = 0;
    while i < catalog.servers.len()
        invariant
            0 <= i <= catalog.servers@.len(),
            forall|j: int| 0 <= j < i ==> catalog@.servers[j].name != server_name@,
        decreases catalog.servers@.len() - i,
    {
        if catalog.servers[i].name.eq(server_name) {
            proof {
                lemma_server_index_of(catalog@.servers, server_name@);
                match server_index_of(catalog@.servers, server_name@) {
                    Some(j) => {
                        if j < i as int {
                            assert(catalog@.servers[j].name != server_name@);
                            assert(false);
                        }
                        if j > i as int {
                            assert(catalog@.servers[i as int].name != server_name@);
                            assert(false);
                        }
                    },
                    None => {
                        assert(catalog@.servers[i as int].name == server_name@);
                        assert(false);
                    },
                }
            }
            let server = &catalog.servers[i];
            let mut k: usize = 0;
            while k < server.tools.len()
                invariant
                    0 <= k <= server.tools@.len(),
                    forall|j: int| 0 <= j < k ==> (#[trigger] server@.tools[j]).name != tool_name@,
                decreases server.tools@.len() - k,
            {
                if server.tools[k].name.eq(tool_name) {
                    proof {
                        assert(server@.tools[k as int].name == tool_name@);
                    }
                    return match args {
                        JsonValue::Obj(_) => Ok(()),
                        _ => Err("Tool arguments must be a JSON object".to_owned()),
                    };
                }
                k += 1;
            }
            let mut e: String = "Tool not found: ".to_owned();
            e.append(tool_name.as_str());
            return Err(e);
        }
        i += 1;
    }
    let mut e: String = "Server not found: ".to_owned();
    e.append(server_name.as_str());
    Err(e)
}

} // verus!
