//! The configuration of the tool servers, read from TOML: a table
//! `servers` that holds a table for each server, by its name.

use crate::json::{lemma_array_view, lemma_object_view, Json, JsonView};
use crate::mcp::{McpConfig, McpServerConfig};
use crate::settings::{optional_count, parse_toml, read_optional_count, toml_value};
use vstd::prelude::*;
use vstd::string::*;

verus! {

/// The configuration of one server, with its texts as sequences.
pub struct ServerView {
    pub command: Seq<char>,
    pub args: Seq<Seq<char>>,
    pub env: Seq<(Seq<char>, Seq<char>)>,
    pub timeout_ms: u64,
}

/// The view of the configuration of a server.
pub open spec fn server_view(s: McpServerConfig) -> ServerView {
    ServerView {
        command: s.command@,
        args: s.args@.map_values(|a: String| a@),
        env: s.env@.map_values(|e: (String, String)| (e.0@, e.1@)),
        timeout_ms: s.timeout_ms,
    }
}

/// The views of the configured servers, with their names.
pub open spec fn config_view(c: McpConfig) -> Seq<(Seq<char>, ServerView)> {
    c.servers@.map_values(|s: (String, McpServerConfig)| (s.0@, server_view(s.1)))
}

/// The first `n` values as texts; none where one of them is no string.
pub open spec fn decode_texts(items: Seq<JsonView>, n: int) -> Option<Seq<Seq<char>>>
    decreases n,
{
    if n <= 0 || n > items.len() {
        Some(Seq::empty())
    } else {
        match (decode_texts(items, n - 1), items[n - 1].text()) {
            (Some(before), Some(t)) => Some(before.push(t)),
            _ => None,
        }
    }
}

/// The first `n` members as names and texts; none where the value of
/// one of them is no string.
pub open spec fn decode_pairs(members: Seq<(Seq<char>, JsonView)>, n: int) -> Option<
    Seq<(Seq<char>, Seq<char>)>,
>
    decreases n,
{
    if n <= 0 || n > members.len() {
        Some(Seq::empty())
    } else {
        match (decode_pairs(members, n - 1), members[n - 1].1.text()) {
            (Some(before), Some(t)) => Some(before.push((members[n - 1].0, t))),
            _ => None,
        }
    }
}

/// The arguments of a server: none where the member is missing, the
/// texts of the array where it is one of strings.
pub open spec fn args_of(j: JsonView) -> Option<Seq<Seq<char>>> {
    match j.field("args"@) {
        None => Some(Seq::empty()),
        Some(JsonView::Array(items)) => decode_texts(items, items.len() as int),
        Some(_) => None,
    }
}

/// The environment of a server: empty where the member is missing, the
/// names and texts of the table where it is one of strings.
pub open spec fn env_of(j: JsonView) -> Option<Seq<(Seq<char>, Seq<char>)>> {
    match j.field("env"@) {
        None => Some(Seq::empty()),
        Some(JsonView::Object(members)) => decode_pairs(members, members.len() as int),
        Some(_) => None,
    }
}

/// The configuration that a table holds: a command, and where they are
/// given arguments, an environment, and the time the server may take,
/// 30000 milliseconds where none is given.
pub open spec fn decode_server(j: JsonView) -> Option<ServerView> {
    match (j.text_field("command"@), args_of(j), env_of(j), optional_count(
        j,
        "timeout_ms"@,
        u64::MAX,
    )) {
        (Some(command), Some(args), Some(env), Some(timeout)) => Some(
            ServerView {
                command,
                args,
                env,
                timeout_ms: match timeout {
                    Some(t) => t,
                    None => 30000,
                },
            },
        ),
        _ => None,
    }
}

/// The first `n` members as servers; none where one of them is none.
pub open spec fn decode_servers(members: Seq<(Seq<char>, JsonView)>, n: int) -> Option<
    Seq<(Seq<char>, ServerView)>,
>
    decreases n,
{
    if n <= 0 || n > members.len() {
        Some(Seq::empty())
    } else {
        match (decode_servers(members, n - 1), decode_server(members[n - 1].1)) {
            (Some(before), Some(s)) => Some(before.push((members[n - 1].0, s))),
            _ => None,
        }
    }
}

/// The servers that a value configures: those of its table `servers`,
/// none where the table is missing.
pub open spec fn decode_config(j: JsonView) -> Option<Seq<(Seq<char>, ServerView)>> {
    match j {
        JsonView::Object(_) => match j.field("servers"@) {
            None => Some(Seq::empty()),
            Some(JsonView::Object(members)) => decode_servers(members, members.len() as int),
            Some(_) => None,
        },
        _ => None,
    }
}

/// The servers that a TOML text configures; none where the text is no
/// TOML or configures no servers.
pub open spec fn config_of(text: Seq<char>) -> Option<Seq<(Seq<char>, ServerView)>> {
    match toml_value(text) {
        Some(j) => decode_config(j),
        None => None,
    }
}

proof fn lemma_texts_fail(items: Seq<JsonView>, n: int, m: int)
    requires
        0 <= n <= m <= items.len(),
        decode_texts(items, n) is None,
    ensures
        decode_texts(items, m) is None,
    decreases m - n,
{
    if n < m {
        lemma_texts_fail(items, n, m - 1);
    }
}

proof fn lemma_pairs_fail(members: Seq<(Seq<char>, JsonView)>, n: int, m: int)
    requires
        0 <= n <= m <= members.len(),
        decode_pairs(members, n) is None,
    ensures
        decode_pairs(members, m) is None,
    decreases m - n,
{
    if n < m {
        lemma_pairs_fail(members, n, m - 1);
    }
}

proof fn lemma_servers_fail(members: Seq<(Seq<char>, JsonView)>, n: int, m: int)
    requires
        0 <= n <= m <= members.len(),
        decode_servers(members, n) is None,
    ensures
        decode_servers(members, m) is None,
    decreases m - n,
{
    if n < m {
        lemma_servers_fail(members, n, m - 1);
    }
}

fn read_args(j: &Json) -> (r: Option<Vec<String>>)
    ensures
        match r {
            Some(args) => args_of(j@) == Some(args@.map_values(|a: String| a@)),
            None => args_of(j@) is None,
        },
{
    let mut args: Vec<String> = Vec::new();
    let list = match j.get("args") {
        Some(l) => l,
        None => {
            assert(args@.map_values(|a: String| a@) =~= Seq::empty());
            return Some(args);
        },
    };
    match list {
        Json::Array(items) => {
            proof {
                lemma_array_view(*list);
            }
            let ghost views = list@->Array_0;
            let mut k: usize = 0;
            assert(args@.map_values(|a: String| a@) =~= Seq::empty());
            while k < items.len()
                invariant
                    k <= items@.len(),
                    views.len() == items@.len(),
                    forall|i: int| 0 <= i < items@.len() ==> views[i] == items@[i]@,
                    decode_texts(views, k as int) == Some(args@.map_values(|a: String| a@)),
                    args_of(j@) == decode_texts(views, views.len() as int),
                decreases items.len() - k,
            {
                let ghost before = args@.map_values(|a: String| a@);
                match items[k].as_str() {
                    Some(t) => {
                        args.push(t.to_owned());
                        assert(args@.map_values(|a: String| a@) =~= before.push(t@));
                    },
                    None => {
                        proof {
                            lemma_texts_fail(views, k + 1, views.len() as int);
                        }
                        return None;
                    },
                }
                k += 1;
            }
            Some(args)
        },
        _ => None,
    }
}

fn read_env(j: &Json) -> (r: Option<Vec<(String, String)>>)
    ensures
        match r {
            Some(env) => env_of(j@) == Some(env@.map_values(|e: (String, String)| (e.0@, e.1@))),
            None => env_of(j@) is None,
        },
{
    let mut env: Vec<(String, String)> = Vec::new();
    let table = match j.get("env") {
        Some(t) => t,
        None => {
            assert(env@.map_values(|e: (String, String)| (e.0@, e.1@)) =~= Seq::empty());
            return Some(env);
        },
    };
    match table {
        Json::Object(members) => {
            proof {
                lemma_object_view(*table);
            }
            let ghost views = table@->Object_0;
            let mut k: usize = 0;
            assert(env@.map_values(|e: (String, String)| (e.0@, e.1@)) =~= Seq::empty());
            while k < members.len()
                invariant
                    k <= members@.len(),
                    views.len() == members@.len(),
                    forall|i: int|
                        0 <= i < members@.len() ==> views[i] == (members@[i].0@, members@[i].1@),
                    decode_pairs(views, k as int) == Some(
                        env@.map_values(|e: (String, String)| (e.0@, e.1@)),
                    ),
                    env_of(j@) == decode_pairs(views, views.len() as int),
                decreases members.len() - k,
            {
                let ghost before = env@.map_values(|e: (String, String)| (e.0@, e.1@));
                match members[k].1.as_str() {
                    Some(t) => {
                        env.push((members[k].0.clone(), t.to_owned()));
                        assert(env@.map_values(|e: (String, String)| (e.0@, e.1@))
                            =~= before.push((members@[k as int].0@, t@)));
                    },
                    None => {
                        proof {
                            lemma_pairs_fail(views, k + 1, views.len() as int);
                        }
                        return None;
                    },
                }
                k += 1;
            }
            Some(env)
        },
        _ => None,
    }
}

/// Reads the configuration of one server from its table.
pub fn read_server(j: &Json) -> (r: Option<McpServerConfig>)
    ensures
        match r {
            Some(s) => decode_server(j@) == Some(server_view(s)),
            None => decode_server(j@) is None,
        },
{
    let command = match j.get_str("command") {
        Some(c) => c.to_owned(),
        None => {
            return None;
        },
    };
    let args = match read_args(j) {
        Some(a) => a,
        None => {
            return None;
        },
    };
    let env = match read_env(j) {
        Some(e) => e,
        None => {
            return None;
        },
    };
    let timeout_ms = match read_optional_count(j, "timeout_ms", u64::MAX) {
        Some(Some(t)) => t,
        Some(None) => 30000,
        None => {
            return None;
        },
    };
    Some(McpServerConfig { command, args, env, timeout_ms })
}

/// Reads the configured servers from a value.
pub fn read_config(j: &Json) -> (r: Option<McpConfig>)
    ensures
        match r {
            Some(c) => decode_config(j@) == Some(config_view(c)),
            None => decode_config(j@) is None,
        },
{
    match j {
        Json::Object(_) => {},
        _ => {
            return None;
        },
    }
    let mut servers: Vec<(String, McpServerConfig)> = Vec::new();
    let table = match j.get("servers") {
        Some(t) => t,
        None => {
            let c = McpConfig { servers };
            assert(config_view(c) =~= Seq::empty());
            return Some(c);
        },
    };
    match table {
        Json::Object(members) => {
            proof {
                lemma_object_view(*table);
            }
            let ghost views = table@->Object_0;
            let mut k: usize = 0;
            assert(config_view(McpConfig { servers }) =~= Seq::empty());
            while k < members.len()
                invariant
                    k <= members@.len(),
                    views.len() == members@.len(),
                    forall|i: int|
                        0 <= i < members@.len() ==> views[i] == (members@[i].0@, members@[i].1@),
                    decode_servers(views, k as int) == Some(config_view(McpConfig { servers })),
                    decode_config(j@) == decode_servers(views, views.len() as int),
                decreases members.len() - k,
            {
                let ghost before = config_view(McpConfig { servers });
                match read_server(&members[k].1) {
                    Some(s) => {
                        servers.push((members[k].0.clone(), s));
                        assert(config_view(McpConfig { servers }) =~= before.push(
                            (members@[k as int].0@, server_view(s)),
                        ));
                    },
                    None => {
                        proof {
                            lemma_servers_fail(views, k + 1, views.len() as int);
                        }
                        return None;
                    },
                }
                k += 1;
            }
            Some(McpConfig { servers })
        },
        _ => None,
    }
}

/// Reads the configuration of the servers from a TOML text.
pub fn parse_config(text: &str) -> (r: Option<McpConfig>)
    ensures
        match r {
            Some(c) => config_of(text@) == Some(config_view(c)),
            None => config_of(text@) is None,
        },
{
    match parse_toml(text) {
        Some(j) => read_config(&j),
        None => None,
    }
}

} // verus!
