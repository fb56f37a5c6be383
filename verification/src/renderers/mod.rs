//! How each agent's configuration file is made from the universal
//! configuration.

use vstd::prelude::*;
use vstd::string::*;
use crate::config::{ConfigView, ServerConfig, ServerView, Transport, UniversalConfig, texts};
use crate::json::{
    lemma_array_view, lemma_object_view, items_view, members_view, opt_json, Json, JsonValue,
};
use crate::keyed::{
    distinct_names, first_index, keyed_insert, keyed_view, last_lookup, lemma_first_index,
    lemma_object_insert_distinct, lemma_object_insert_lookup, lemma_object_insert_shape,
    lemma_last_lookup_named, lemma_lookup_named, lookup, member_names, object_insert,
};

pub mod code_cli;
pub mod copilot;
pub mod cursor;
pub mod opencode;
pub mod vscode;
pub mod windsurf;

verus! {

/// An agent whose MCP configuration file this library writes.
pub trait AgentRenderer {
    /// The agent's name.
    spec fn spec_name(&self) -> Seq<char>;

    /// Where the agent keeps its configuration, under a project root.
    spec fn spec_config_path(&self, project_root: Seq<char>) -> Seq<char>;

    /// The agent's configuration document for a universal configuration.
    spec fn spec_render(&self, config: ConfigView) -> Json;

    /// The document to write, given what the file held before (`None`
    /// when there was no file or it did not hold JSON).
    spec fn spec_document(&self, config: ConfigView, existing: Option<Json>) -> Json;

    /// Whether the document to write depends on what the file held before.
    spec fn spec_keeps_existing(&self) -> bool;

    fn name(&self) -> (r: &'static str)
        ensures
            r@ == self.spec_name(),
    ;

    fn config_path(&self, project_root: &str) -> (r: String)
        ensures
            r@ == self.spec_config_path(project_root@),
    ;

    fn render(&self, config: &UniversalConfig) -> (r: JsonValue)
        ensures
            r@ == self.spec_render(config@),
    ;

    fn document(&self, config: &UniversalConfig, existing: Option<JsonValue>) -> (r: JsonValue)
        ensures
            r@ == self.spec_document(config@, opt_json(existing)),
    ;

    fn keeps_existing(&self) -> (r: bool)
        ensures
            r == self.spec_keeps_existing(),
    ;
}

/// A JSON array of texts.
pub open spec fn texts_json(v: Seq<Seq<char>>) -> Json {
    Json::Array(v.map_values(|s: Seq<char>| Json::String(s)))
}

/// A JSON object from names to texts.
pub open spec fn pairs_json(v: Seq<(Seq<char>, Seq<char>)>) -> Json {
    Json::Object(v.map_values(|p: (Seq<char>, Seq<char>)| (p.0, Json::String(p.1))))
}

/// The member `(key, v)` if there is a value, nothing otherwise.
pub open spec fn opt_member(key: Seq<char>, v: Option<Json>) -> Seq<(Seq<char>, Json)> {
    match v {
        Some(j) => seq![(key, j)],
        None => seq![],
    }
}

pub open spec fn opt_text_json(v: Option<Seq<char>>) -> Option<Json> {
    match v {
        Some(s) => Some(Json::String(s)),
        None => None,
    }
}

pub open spec fn opt_texts_json(v: Option<Seq<Seq<char>>>) -> Option<Json> {
    match v {
        Some(s) => Some(texts_json(s)),
        None => None,
    }
}

pub open spec fn opt_pairs_json(v: Option<Seq<(Seq<char>, Seq<char>)>>) -> Option<Json> {
    match v {
        Some(s) => Some(pairs_json(s)),
        None => None,
    }
}

/// The entry of a server in the configuration of the agents that use the
/// common layout: an http server is `type: "http"` with its url and
/// headers, a stdio server is its command, args and env; each optional
/// member is there exactly when the server gives it.
pub open spec fn server_entry(s: ServerView) -> Json {
    match s.transport {
        Transport::Http => Json::Object(
            seq![("type"@, Json::String("http"@))] + opt_member("url"@, opt_text_json(s.url))
                + opt_member("headers"@, opt_pairs_json(s.headers)),
        ),
        Transport::Stdio => Json::Object(
            opt_member("command"@, opt_text_json(s.command)) + opt_member(
                "args"@,
                opt_texts_json(s.args),
            ) + opt_member("env"@, opt_pairs_json(s.env)),
        ),
    }
}

/// The command line of a stdio server for OpenCode: the command, if there
/// is one, followed by the arguments, if there are any.
pub open spec fn command_line(s: ServerView) -> Seq<Seq<char>> {
    (match s.command {
        Some(c) => seq![c],
        None => seq![],
    }) + (match s.args {
        Some(a) => a,
        None => seq![],
    })
}

/// The entry of a server in OpenCode's configuration: an http server is a
/// `remote` entry with its url and headers, a stdio server a `local` entry
/// whose `command` is its whole command line and whose `environment` is
/// its env; both are `enabled`.
pub open spec fn opencode_entry(s: ServerView) -> Json {
    match s.transport {
        Transport::Http => Json::Object(
            seq![("type"@, Json::String("remote"@)), ("enabled"@, Json::Bool(true))]
                + opt_member("url"@, opt_text_json(s.url))
                + opt_member("headers"@, opt_pairs_json(s.headers)),
        ),
        Transport::Stdio => Json::Object(
            seq![
                ("type"@, Json::String("local"@)),
                ("enabled"@, Json::Bool(true)),
                ("command"@, texts_json(command_line(s))),
            ] + opt_member("environment"@, opt_pairs_json(s.env)),
        ),
    }
}

/// Which entry a server gets.
#[derive(Clone, Copy)]
pub enum Layout {
    /// `server_entry`, used by Cursor, the Code CLI agent, Copilot, VS Code and Windsurf.
    Common,
    /// `opencode_entry`.
    OpenCode,
}

pub open spec fn entry_for(layout: Layout, s: ServerView) -> Json {
    match layout {
        Layout::Common => server_entry(s),
        Layout::OpenCode => opencode_entry(s),
    }
}

/// The members made of each server under its name, in order, a later
/// server of the same name replacing an earlier one.
pub open spec fn server_members(servers: Seq<(Seq<char>, ServerView)>, layout: Layout) -> Seq<
    (Seq<char>, Json),
>
    decreases servers.len(),
{
    if servers.len() == 0 {
        seq![]
    } else {
        object_insert(
            server_members(servers.drop_last(), layout),
            servers.last().0,
            entry_for(layout, servers.last().1),
        )
    }
}

/// A document whose single member `key` holds every server's entry.
pub open spec fn servers_document(key: Seq<char>, config: ConfigView, layout: Layout) -> Json {
    Json::Object(seq![(key, Json::Object(server_members(config.servers, layout)))])
}

/// A JSON array of texts.
pub fn texts_to_json(v: &Vec<String>) -> (r: JsonValue)
    ensures
        r@ == texts_json(texts(v@)),
{
    let mut out: Vec<JsonValue> = Vec::new();
    let mut i: usize = 0;
    while i < v.len()
        invariant
            i <= v@.len(),
            out@.len() == i,
            items_view(out@) == texts_json_items(texts(v@)).subrange(0, i as int),
        decreases v@.len() - i,
    {
        out.push(JsonValue::String(v[i].clone()));
        i = i + 1;
        assert(items_view(out@) =~= texts_json_items(texts(v@)).subrange(0, i as int));
    }
    proof {
        lemma_array_view(out);
        assert(texts_json_items(texts(v@)).subrange(0, i as int) =~= texts_json_items(texts(v@)));
    }
    JsonValue::Array(out)
}

pub open spec fn texts_json_items(v: Seq<Seq<char>>) -> Seq<Json> {
    v.map_values(|s: Seq<char>| Json::String(s))
}

pub open spec fn pairs_json_members(v: Seq<(Seq<char>, Seq<char>)>) -> Seq<(Seq<char>, Json)> {
    v.map_values(|p: (Seq<char>, Seq<char>)| (p.0, Json::String(p.1)))
}

/// A JSON object from names to texts.
pub fn pairs_to_json(v: &Vec<(String, String)>) -> (r: JsonValue)
    ensures
        r@ == pairs_json(keyed_view(v@)),
{
    let mut out: Vec<(String, JsonValue)> = Vec::new();
    let mut i: usize = 0;
    while i < v.len()
        invariant
            i <= v@.len(),
            out@.len() == i,
            members_view(out@) == pairs_json_members(keyed_view(v@)).subrange(0, i as int),
        decreases v@.len() - i,
    {
        out.push((v[i].0.clone(), JsonValue::String(v[i].1.clone())));
        i = i + 1;
        assert(members_view(out@) =~= pairs_json_members(keyed_view(v@)).subrange(0, i as int));
    }
    proof {
        lemma_object_view(out);
        assert(pairs_json_members(keyed_view(v@)).subrange(0, i as int) =~= pairs_json_members(
            keyed_view(v@),
        ));
    }
    JsonValue::Object(out)
}

/// The entry of a server for the agents that use the common layout.
pub fn transform_server(server: &ServerConfig) -> (r: JsonValue)
    ensures
        r@ == server_entry(server@),
{
    let mut m: Vec<(String, JsonValue)> = Vec::new();
    match server.transport {
        Transport::Http => {
            m.push((String::from_str("type"), JsonValue::String(String::from_str("http"))));
            if let Some(url) = &server.url {
                m.push((String::from_str("url"), JsonValue::String(url.clone())));
            }
            if let Some(headers) = &server.headers {
                m.push((String::from_str("headers"), pairs_to_json(headers)));
            }
        },
        Transport::Stdio => {
            if let Some(cmd) = &server.command {
                m.push((String::from_str("command"), JsonValue::String(cmd.clone())));
            }
            if let Some(args) = &server.args {
                m.push((String::from_str("args"), texts_to_json(args)));
            }
            if let Some(env) = &server.env {
                m.push((String::from_str("env"), pairs_to_json(env)));
            }
        },
    }
    proof {
        lemma_object_view(m);
        if let Json::Object(e) = server_entry(server@) {
            assert(members_view(m@) =~= e);
        }
    }
    JsonValue::Object(m)
}

/// The entry of a server in OpenCode's configuration.
pub fn render_opencode_server(server: &ServerConfig) -> (r: JsonValue)
    ensures
        r@ == opencode_entry(server@),
{
    let mut m: Vec<(String, JsonValue)> = Vec::new();
    match server.transport {
        Transport::Http => {
            m.push((String::from_str("type"), JsonValue::String(String::from_str("remote"))));
            m.push((String::from_str("enabled"), JsonValue::Bool(true)));
            if let Some(url) = &server.url {
                m.push((String::from_str("url"), JsonValue::String(url.clone())));
            }
            if let Some(headers) = &server.headers {
                m.push((String::from_str("headers"), pairs_to_json(headers)));
            }
        },
        Transport::Stdio => {
            m.push((String::from_str("type"), JsonValue::String(String::from_str("local"))));
            m.push((String::from_str("enabled"), JsonValue::Bool(true)));
            let mut command: Vec<String> = Vec::new();
            if let Some(cmd) = &server.command {
                command.push(cmd.clone());
            }
            let ghost head = texts(command@);
            if let Some(args) = &server.args {
                let mut i: usize = 0;
                while i < args.len()
                    invariant
                        i <= args@.len(),
                        command@.len() == head.len() + i,
                        texts(command@) == head + texts(args@).subrange(0, i as int),
                    decreases args@.len() - i,
                {
                    let ghost prev = command@;
                    command.push(args[i].clone());
                    assert(texts(command@) =~= texts(prev).push(args@[i as int]@));
                    assert(texts(args@).subrange(0, i + 1) =~= texts(args@).subrange(
                        0,
                        i as int,
                    ).push(args@[i as int]@));
                    i = i + 1;
                    assert(texts(command@) =~= head + texts(args@).subrange(0, i as int));
                }
                assert(texts(args@).subrange(0, i as int) =~= texts(args@));
            } else {
                assert(texts(command@) =~= head + Seq::<Seq<char>>::empty());
            }
            assert(texts(command@) =~= command_line(server@));
            m.push((String::from_str("command"), texts_to_json(&command)));
            if let Some(env) = &server.env {
                m.push((String::from_str("environment"), pairs_to_json(env)));
            }
        },
    }
    proof {
        lemma_object_view(m);
        if let Json::Object(e) = opencode_entry(server@) {
            assert(members_view(m@) =~= e);
        }
    }
    JsonValue::Object(m)
}

/// The entry of a server in the given layout.
pub fn entry_json(layout: Layout, server: &ServerConfig) -> (r: JsonValue)
    ensures
        r@ == entry_for(layout, server@),
{
    match layout {
        Layout::Common => transform_server(server),
        Layout::OpenCode => render_opencode_server(server),
    }
}

/// A document whose single member `key` holds every server's entry.
pub fn render_servers_document(key: &str, config: &UniversalConfig, layout: Layout) -> (r:
    JsonValue)
    ensures
        r@ == servers_document(key@, config@, layout),
{
    let servers = config.servers();
    let ghost sv = config@.servers;
    let mut members: Vec<(String, JsonValue)> = Vec::new();
    let mut i: usize = 0;
    assert(sv.subrange(0, 0) =~= Seq::<(Seq<char>, ServerView)>::empty());
    assert(members_view(members@) =~= Seq::<(Seq<char>, Json)>::empty());
    while i < servers.len()
        invariant
            sv == keyed_view(servers@),
            sv.len() == servers@.len(),
            i <= sv.len(),
            members_view(members@) == server_members(sv.subrange(0, i as int), layout),
        decreases sv.len() - i,
    {
        let ghost p = sv.subrange(0, i + 1);
        assert(p.drop_last() =~= sv.subrange(0, i as int));
        assert(p.last() == (servers@[i as int].0@, servers@[i as int].1@));
        let entry = entry_json(layout, &servers[i].1);
        keyed_insert(&mut members, servers[i].0.clone(), entry);
        i = i + 1;
    }
    assert(sv.subrange(0, i as int) =~= sv);
    let inner = JsonValue::Object(members);
    proof {
        lemma_object_view(members);
    }
    let mut top: Vec<(String, JsonValue)> = Vec::new();
    top.push((String::from_str(key), inner));
    proof {
        lemma_object_view(top);
        assert(members_view(top@) =~= seq![(key@, inner@)]);
    }
    JsonValue::Object(top)
}

/// Each server's entry under its name, in order.
pub open spec fn entries_by_name(servers: Seq<(Seq<char>, ServerView)>, layout: Layout) -> Seq<
    (Seq<char>, Json),
> {
    servers.map_values(|e: (Seq<char>, ServerView)| (e.0, entry_for(layout, e.1)))
}

/// When every server has its own name, the rendered servers are exactly
/// the configuration's servers, in the model's order, each under its name
/// with its entry (a written file shows the names sorted).
pub proof fn lemma_server_members_distinct(servers: Seq<(Seq<char>, ServerView)>, layout: Layout)
    requires
        distinct_names(servers),
    ensures
        server_members(servers, layout) == entries_by_name(servers, layout),
    decreases servers.len(),
{
    if servers.len() > 0 {
        let init = servers.drop_last();
        assert(distinct_names(init)) by {
            assert forall|i: int, j: int| 0 <= i < j < init.len() implies #[trigger] init[i].0
                != #[trigger] init[j].0 by {
                assert(servers[i].0 != servers[j].0);
            }
        }
        lemma_server_members_distinct(init, layout);
        let acc = server_members(init, layout);
        let key = servers.last().0;
        lemma_first_index(acc, key);
        lemma_object_insert_shape(acc, key, entry_for(layout, servers.last().1));
        if first_index(acc, key) < acc.len() {
            let k = first_index(acc, key);
            assert(acc[k].0 == init[k].0);
            assert(servers[k].0 != servers[servers.len() - 1].0);
        }
        assert(server_members(servers, layout) =~= entries_by_name(servers, layout));
    }
}

/// The servers that a rendered document holds under its single member.
pub open spec fn rendered_servers(doc: Json) -> Seq<(Seq<char>, Json)> {
    match doc {
        Json::Object(m) => if m.len() == 1 {
            match m[0].1 {
                Json::Object(s) => s,
                _ => seq![],
            }
        } else {
            seq![]
        },
        _ => seq![],
    }
}

/// A rendered document names the configuration's servers, each once and in
/// the model's order, when the configuration names each server once.
pub proof fn lemma_document_names_every_server(key: Seq<char>, config: ConfigView, layout: Layout)
    requires
        distinct_names(config.servers),
    ensures
        member_names(rendered_servers(servers_document(key, config, layout))) == member_names(
            config.servers,
        ),
{
    lemma_server_members_distinct(config.servers, layout);
    assert(member_names(entries_by_name(config.servers, layout)) =~= member_names(config.servers));
}

/// Whatever the server names, each rendered name occurs once and gives the
/// entry of the last server of that name.
pub proof fn lemma_server_members_lookup(
    servers: Seq<(Seq<char>, ServerView)>,
    layout: Layout,
    name: Seq<char>,
)
    ensures
        distinct_names(server_members(servers, layout)),
        lookup(server_members(servers, layout), name) == (match last_lookup(servers, name) {
            Some(s) => Some(entry_for(layout, s)),
            None => None::<Json>,
        }),
    decreases servers.len(),
{
    if servers.len() > 0 {
        let init = servers.drop_last();
        lemma_server_members_lookup(init, layout, name);
        let acc = server_members(init, layout);
        lemma_object_insert_distinct(acc, servers.last().0, entry_for(layout, servers.last().1));
        lemma_object_insert_lookup(acc, servers.last().0, entry_for(layout, servers.last().1), name);
    }
}

/// A rendered document holds one entry per server name of the
/// configuration and no other, whether or not names repeat; each is the
/// entry of the last server of that name.
pub proof fn lemma_document_one_entry_per_name(
    key: Seq<char>,
    config: ConfigView,
    layout: Layout,
    name: Seq<char>,
)
    ensures
        distinct_names(rendered_servers(servers_document(key, config, layout))),
        member_names(rendered_servers(servers_document(key, config, layout))).contains(name)
            <==> member_names(config.servers).contains(name),
        lookup(rendered_servers(servers_document(key, config, layout)), name) == (match last_lookup(
            config.servers,
            name,
        ) {
            Some(s) => Some(entry_for(layout, s)),
            None => None::<Json>,
        }),
{
    lemma_server_members_lookup(config.servers, layout, name);
    lemma_lookup_named(server_members(config.servers, layout), name);
    lemma_last_lookup_named(config.servers, name);
}


/// Looking a name up in two lists of members one after the other finds it
/// in the first list, or else in the second.
proof fn lemma_lookup_concat<V>(a: Seq<(Seq<char>, V)>, b: Seq<(Seq<char>, V)>, k: Seq<char>)
    ensures
        lookup(a + b, k) == (if lookup(a, k) is Some {
            lookup(a, k)
        } else {
            lookup(b, k)
        }),
    decreases a.len(),
{
    if a.len() > 0 {
        assert((a + b).drop_first() =~= a.drop_first() + b);
        lemma_lookup_concat(a.drop_first(), b, k);
    } else {
        assert(a + b =~= b);
    }
}

proof fn lemma_lookup_opt_member(key: Seq<char>, v: Option<Json>, k: Seq<char>)
    ensures
        lookup(opt_member(key, v), k) == (if k == key {
            v
        } else {
            None
        }),
{
    let s = opt_member(key, v);
    if let Some(j) = v {
        assert(s.len() == 1 && s[0] == (key, j));
        assert(s.drop_first() =~= Seq::<(Seq<char>, Json)>::empty());
        assert(lookup(s.drop_first(), k) is None);
    } else {
        assert(s.len() == 0);
    }
}

/// The object of a table of texts holds its pairs: each name is looked up
/// to the text the table gives it.
pub proof fn lemma_pairs_json_lookup(p: Seq<(Seq<char>, Seq<char>)>, k: Seq<char>)
    ensures
        pairs_json(p) matches Json::Object(m) && lookup(m, k) == (match lookup(p, k) {
            Some(v) => Some(Json::String(v)),
            None => None,
        }),
    decreases p.len(),
{
    if p.len() > 0 {
        lemma_pairs_json_lookup(p.drop_first(), k);
        if let Json::Object(m) = pairs_json(p) {
            if let Json::Object(m2) = pairs_json(p.drop_first()) {
                assert(m.drop_first() =~= m2);
            }
        }
    }
}

/// The entry of a server for the agents of the common layout: an http
/// server has `type: "http"`, its url exactly when it gives one and its
/// headers exactly when it gives them, and nothing else; a stdio server has
/// its command, args and env, each exactly when it gives it, and nothing
/// else.
pub proof fn lemma_common_entry_members(s: ServerView, k: Seq<char>)
    ensures
        server_entry(s) matches Json::Object(m) && {
            &&& s.transport == Transport::Http ==> {
                &&& lookup(m, "type"@) == Some(Json::String("http"@))
                &&& lookup(m, "url"@) == opt_text_json(s.url)
                &&& lookup(m, "headers"@) == opt_pairs_json(s.headers)
                &&& (k != "type"@ && k != "url"@ && k != "headers"@ ==> lookup(m, k) is None)
            }
            &&& s.transport == Transport::Stdio ==> {
                &&& lookup(m, "command"@) == opt_text_json(s.command)
                &&& lookup(m, "args"@) == opt_texts_json(s.args)
                &&& lookup(m, "env"@) == opt_pairs_json(s.env)
                &&& (k != "command"@ && k != "args"@ && k != "env"@ ==> lookup(m, k) is None)
            }
        },
{
    reveal_strlit("type");
    reveal_strlit("http");
    reveal_strlit("url");
    reveal_strlit("headers");
    reveal_strlit("command");
    reveal_strlit("args");
    reveal_strlit("env");
    assert("type"@.len() == 4 && "url"@.len() == 3 && "headers"@.len() == 7);
    assert("command"@.len() == 7 && "args"@.len() == 4 && "env"@.len() == 3);
    assert("type"@ != "url"@ && "type"@ != "headers"@ && "url"@ != "headers"@);
    assert("command"@[0] != "headers"@[0]);
    assert("command"@ != "args"@ && "command"@ != "env"@ && "args"@ != "env"@);
    let first = seq![("type"@, Json::String("http"@))];
    let u = opt_member("url"@, opt_text_json(s.url));
    let h = opt_member("headers"@, opt_pairs_json(s.headers));
    let c = opt_member("command"@, opt_text_json(s.command));
    let a = opt_member("args"@, opt_texts_json(s.args));
    let e = opt_member("env"@, opt_pairs_json(s.env));
    assert(first.drop_first() =~= Seq::<(Seq<char>, Json)>::empty());
    assert forall|key: Seq<char>| #[trigger] lookup(first + u + h, key) == (if key == "type"@ {
        Some(Json::String("http"@))
    } else if key == "url"@ {
        opt_text_json(s.url)
    } else if key == "headers"@ {
        opt_pairs_json(s.headers)
    } else {
        None
    }) by {
        lemma_lookup_concat(first + u, h, key);
        lemma_lookup_concat(first, u, key);
        assert(first =~= opt_member("type"@, Some(Json::String("http"@))));
        lemma_lookup_opt_member("type"@, Some(Json::String("http"@)), key);
        lemma_lookup_opt_member("url"@, opt_text_json(s.url), key);
        lemma_lookup_opt_member("headers"@, opt_pairs_json(s.headers), key);
    }
    assert forall|key: Seq<char>| #[trigger] lookup(c + a + e, key) == (if key == "command"@ {
        opt_text_json(s.command)
    } else if key == "args"@ {
        opt_texts_json(s.args)
    } else if key == "env"@ {
        opt_pairs_json(s.env)
    } else {
        None
    }) by {
        lemma_lookup_concat(c + a, e, key);
        lemma_lookup_concat(c, a, key);
        lemma_lookup_opt_member("command"@, opt_text_json(s.command), key);
        lemma_lookup_opt_member("args"@, opt_texts_json(s.args), key);
        lemma_lookup_opt_member("env"@, opt_pairs_json(s.env), key);
    }
    assert(lookup(first + u + h, "type"@) == Some(Json::String("http"@)));
    assert(lookup(first + u + h, "url"@) == opt_text_json(s.url));
    assert(lookup(first + u + h, "headers"@) == opt_pairs_json(s.headers));
    assert(lookup(first + u + h, k) == lookup(first + u + h, k));
    assert(lookup(c + a + e, "command"@) == opt_text_json(s.command));
    assert(lookup(c + a + e, "args"@) == opt_texts_json(s.args));
    assert(lookup(c + a + e, "env"@) == opt_pairs_json(s.env));
    assert(lookup(c + a + e, k) == lookup(c + a + e, k));
}

/// The entry of a server for OpenCode: an http server is an enabled
/// `remote` entry with its url exactly when it gives one and its headers
/// exactly when it gives them; a stdio server is an enabled `local` entry
/// whose `command` is its command followed by its args, with its env as
/// `environment` exactly when it gives one; neither has any other member.
pub proof fn lemma_opencode_entry_members(s: ServerView, k: Seq<char>)
    ensures
        opencode_entry(s) matches Json::Object(m) && {
            &&& lookup(m, "enabled"@) == Some(Json::Bool(true))
            &&& s.transport == Transport::Http ==> {
                &&& lookup(m, "type"@) == Some(Json::String("remote"@))
                &&& lookup(m, "url"@) == opt_text_json(s.url)
                &&& lookup(m, "headers"@) == opt_pairs_json(s.headers)
                &&& (k != "type"@ && k != "enabled"@ && k != "url"@ && k != "headers"@ ==> lookup(
                    m,
                    k,
                ) is None)
            }
            &&& s.transport == Transport::Stdio ==> {
                &&& lookup(m, "type"@) == Some(Json::String("local"@))
                &&& lookup(m, "command"@) == Some(texts_json(command_line(s)))
                &&& lookup(m, "environment"@) == opt_pairs_json(s.env)
                &&& (k != "type"@ && k != "enabled"@ && k != "command"@ && k != "environment"@
                    ==> lookup(m, k) is None)
            }
        },
        command_line(s).len() == (if s.command is Some {
            1int
        } else {
            0int
        }) + (match s.args {
            Some(a) => a.len() as int,
            None => 0int,
        }),
        s.command matches Some(c) ==> command_line(s)[0] == c,
        s.args matches Some(a) ==> forall|j: int|
            0 <= j < a.len() ==> command_line(s)[(if s.command is Some {
                1int
            } else {
                0int
            }) + j] == #[trigger] a[j],
{
    reveal_strlit("type");
    reveal_strlit("remote");
    reveal_strlit("local");
    reveal_strlit("enabled");
    reveal_strlit("url");
    reveal_strlit("headers");
    reveal_strlit("command");
    reveal_strlit("environment");
    assert("type"@.len() == 4 && "enabled"@.len() == 7 && "url"@.len() == 3);
    assert("headers"@.len() == 7 && "command"@.len() == 7 && "environment"@.len() == 11);
    assert("enabled"@[0] != "headers"@[0] && "enabled"@[0] != "command"@[0]);
    let t = opt_member("type"@, Some(Json::String("remote"@)));
    let tl = opt_member("type"@, Some(Json::String("local"@)));
    let en = opt_member("enabled"@, Some(Json::Bool(true)));
    let cm = opt_member("command"@, Some(texts_json(command_line(s))));
    let u = opt_member("url"@, opt_text_json(s.url));
    let h = opt_member("headers"@, opt_pairs_json(s.headers));
    let ev = opt_member("environment"@, opt_pairs_json(s.env));
    assert(seq![("type"@, Json::String("remote"@)), ("enabled"@, Json::Bool(true))] =~= t + en);
    assert(seq![
        ("type"@, Json::String("local"@)),
        ("enabled"@, Json::Bool(true)),
        ("command"@, texts_json(command_line(s))),
    ] =~= tl + en + cm);
    assert forall|key: Seq<char>| #[trigger] lookup(t + en + u + h, key) == (if key == "type"@ {
        Some(Json::String("remote"@))
    } else if key == "enabled"@ {
        Some(Json::Bool(true))
    } else if key == "url"@ {
        opt_text_json(s.url)
    } else if key == "headers"@ {
        opt_pairs_json(s.headers)
    } else {
        None
    }) by {
        lemma_lookup_concat(t + en + u, h, key);
        lemma_lookup_concat(t + en, u, key);
        lemma_lookup_concat(t, en, key);
        lemma_lookup_opt_member("type"@, Some(Json::String("remote"@)), key);
        lemma_lookup_opt_member("enabled"@, Some(Json::Bool(true)), key);
        lemma_lookup_opt_member("url"@, opt_text_json(s.url), key);
        lemma_lookup_opt_member("headers"@, opt_pairs_json(s.headers), key);
    }
    assert forall|key: Seq<char>| #[trigger] lookup(tl + en + cm + ev, key) == (if key == "type"@ {
        Some(Json::String("local"@))
    } else if key == "enabled"@ {
        Some(Json::Bool(true))
    } else if key == "command"@ {
        Some(texts_json(command_line(s)))
    } else if key == "environment"@ {
        opt_pairs_json(s.env)
    } else {
        None
    }) by {
        lemma_lookup_concat(tl + en + cm, ev, key);
        lemma_lookup_concat(tl + en, cm, key);
        lemma_lookup_concat(tl, en, key);
        lemma_lookup_opt_member("type"@, Some(Json::String("local"@)), key);
        lemma_lookup_opt_member("enabled"@, Some(Json::Bool(true)), key);
        lemma_lookup_opt_member("command"@, Some(texts_json(command_line(s))), key);
        lemma_lookup_opt_member("environment"@, opt_pairs_json(s.env), key);
    }
    assert(lookup(t + en + u + h, "type"@) == Some(Json::String("remote"@)));
    assert(lookup(t + en + u + h, "enabled"@) == Some(Json::Bool(true)));
    assert(lookup(t + en + u + h, "url"@) == opt_text_json(s.url));
    assert(lookup(t + en + u + h, "headers"@) == opt_pairs_json(s.headers));
    assert(lookup(t + en + u + h, k) == lookup(t + en + u + h, k));
    assert(lookup(tl + en + cm + ev, "type"@) == Some(Json::String("local"@)));
    assert(lookup(tl + en + cm + ev, "enabled"@) == Some(Json::Bool(true)));
    assert(lookup(tl + en + cm + ev, "command"@) == Some(texts_json(command_line(s))));
    assert(lookup(tl + en + cm + ev, "environment"@) == opt_pairs_json(s.env));
    assert(lookup(tl + en + cm + ev, k) == lookup(tl + en + cm + ev, k));
}

} // verus!
