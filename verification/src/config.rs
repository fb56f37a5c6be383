//! The universal configuration: the list of MCP servers that
//! `.agents/mcp.json` names, read from its JSON document and checked.

use vstd::prelude::*;
use vstd::string::*;
use crate::json::{
    items_view, lemma_array_view, lemma_object_view, members_view, Json,
    JsonValue,
};
use crate::keyed::{
    collect_entries, collect_keyed, distinct_names, key_at_most_once, keyed_insert, keyed_view,
    last_lookup, lemma_collect_distinct, lemma_first_index, lemma_last_lookup_named, member_names,
    named_at_most_once,
    lemma_object_insert_distinct, lemma_object_insert_lookup, lemma_object_insert_shape, lookup,
    object_insert,
};

verus! {

/// How an MCP server is reached.
#[derive(Debug, Clone, Copy, PartialEq, Eq, Structural)]
pub enum Transport {
    Http,
    Stdio,
}

/// One MCP server of the configuration.
#[derive(Debug, Clone)]
pub struct ServerConfig {
    pub transport: Transport,
    pub url: Option<String>,
    /// Header names and values, each name once.
    pub headers: Option<Vec<(String, String)>>,
    pub command: Option<String>,
    pub args: Option<Vec<String>>,
    /// Environment variable names and values, each name once.
    pub env: Option<Vec<(String, String)>>,
}

/// The configuration: each server under its name, each name once (its
/// invariant, `ConfigView::wf`, which every constructor establishes).
#[derive(Debug)]
pub struct UniversalConfig {
    pub(crate) servers: Vec<(String, ServerConfig)>,
}

/// What a `ServerConfig` holds, as mathematical values.
pub struct ServerView {
    pub transport: Transport,
    pub url: Option<Seq<char>>,
    pub headers: Option<Seq<(Seq<char>, Seq<char>)>>,
    pub command: Option<Seq<char>>,
    pub args: Option<Seq<Seq<char>>>,
    pub env: Option<Seq<(Seq<char>, Seq<char>)>>,
}

/// What a `UniversalConfig` holds, as mathematical values.
pub struct ConfigView {
    pub servers: Seq<(Seq<char>, ServerView)>,
}

pub open spec fn opt_text(o: Option<String>) -> Option<Seq<char>> {
    match o {
        Some(s) => Some(s@),
        None => None,
    }
}

pub open spec fn texts(v: Seq<String>) -> Seq<Seq<char>> {
    v.map_values(|s: String| s@)
}

pub open spec fn opt_texts(o: Option<Vec<String>>) -> Option<Seq<Seq<char>>> {
    match o {
        Some(v) => Some(texts(v@)),
        None => None,
    }
}

pub open spec fn opt_pairs(o: Option<Vec<(String, String)>>) -> Option<Seq<(Seq<char>, Seq<char>)>> {
    match o {
        Some(v) => Some(keyed_view(v@)),
        None => None,
    }
}

impl View for ServerConfig {
    type V = ServerView;

    open spec fn view(&self) -> ServerView {
        ServerView {
            transport: self.transport,
            url: opt_text(self.url),
            headers: opt_pairs(self.headers),
            command: opt_text(self.command),
            args: opt_texts(self.args),
            env: opt_pairs(self.env),
        }
    }
}

impl View for UniversalConfig {
    type V = ConfigView;

    closed spec fn view(&self) -> ConfigView {
        ConfigView { servers: keyed_view(self.servers@) }
    }
}

impl UniversalConfig {
    /// Every configuration names each server once, and names each header and
    /// environment variable of a server once.
    #[verifier::type_invariant]
    spec fn config_inv(self) -> bool {
        self@.wf()
    }
}

/// Optional pairs gathered as a map gathers them.
pub open spec fn opt_collect(o: Option<Seq<(Seq<char>, Seq<char>)>>) -> Option<
    Seq<(Seq<char>, Seq<char>)>,
> {
    match o {
        Some(p) => Some(collect_entries(p)),
        None => None,
    }
}

/// A server whose headers and environment are gathered as maps gather them.
pub open spec fn server_collected(s: ServerView) -> ServerView {
    ServerView {
        transport: s.transport,
        url: s.url,
        headers: opt_collect(s.headers),
        command: s.command,
        args: s.args,
        env: opt_collect(s.env),
    }
}

/// Named servers gathered as a map gathers them, each server's headers and
/// environment gathered too.
pub open spec fn servers_collected(m: Seq<(Seq<char>, ServerView)>) -> Seq<(Seq<char>, ServerView)>
    decreases m.len(),
{
    if m.len() == 0 {
        seq![]
    } else {
        object_insert(servers_collected(m.drop_last()), m.last().0, server_collected(m.last().1))
    }
}

proof fn lemma_servers_collected_wf(m: Seq<(Seq<char>, ServerView)>)
    ensures
        (ConfigView { servers: servers_collected(m) }).wf(),
    decreases m.len(),
{
    if m.len() > 0 {
        lemma_servers_collected_wf(m.drop_last());
        let acc = servers_collected(m.drop_last());
        let s = server_collected(m.last().1);
        if let Some(h) = m.last().1.headers {
            lemma_collect_distinct(h);
        }
        if let Some(e) = m.last().1.env {
            lemma_collect_distinct(e);
        }
        assert(s.wf());
        lemma_object_insert_distinct(acc, m.last().0, s);
        let r = object_insert(acc, m.last().0, s);
        assert forall|i: int| 0 <= i < r.len() implies (#[trigger] r[i]).1.wf() by {
            lemma_object_insert_entries(acc, m.last().0, s, i);
        }
    }
}

fn collected_server(s: ServerConfig) -> (r: ServerConfig)
    ensures
        r@ == server_collected(s@),
{
    let ServerConfig { transport, url, headers, command, args, env } = s;
    let headers = match headers {
        Some(h) => Some(collect_keyed(h)),
        None => None,
    };
    let env = match env {
        Some(e) => Some(collect_keyed(e)),
        None => None,
    };
    ServerConfig { transport, url, headers, command, args, env }
}

impl UniversalConfig {
    /// The configuration of the given servers, gathered as a map gathers
    /// them: a server whose name came before replaces that server, which
    /// keeps its place; headers and environment variables likewise.
    pub fn new(entries: Vec<(String, ServerConfig)>) -> (r: Self)
        ensures
            r@.servers == servers_collected(keyed_view(entries@)),
    {
        let ghost orig = keyed_view(entries@);
        let mut v = entries;
        let mut servers: Vec<(String, ServerConfig)> = Vec::new();
        let ghost mut k: int = 0;
        assert(orig.take(0) =~= Seq::<(Seq<char>, ServerView)>::empty());
        assert(keyed_view(servers@) =~= Seq::<(Seq<char>, ServerView)>::empty());
        assert(keyed_view(v@) =~= orig.skip(0));
        while v.len() > 0
            invariant
                orig.len() == k + v@.len(),
                0 <= k <= orig.len(),
                keyed_view(v@) == orig.skip(k),
                keyed_view(servers@) == servers_collected(orig.take(k)),
            decreases v@.len(),
        {
            let ghost before = v@;
            let (name, server) = v.remove(0);
            proof {
                assert(keyed_view(before)[0] == orig.skip(k)[0]);
                assert(orig[k] == (name@, server@));
                assert(orig.take(k + 1).drop_last() =~= orig.take(k));
                assert(orig.take(k + 1).last() == orig[k]);
            }
            let collected = collected_server(server);
            keyed_insert(&mut servers, name, collected);
            proof {
                assert(keyed_view(v@) =~= orig.skip(k + 1)) by {
                    assert(v@ =~= before.remove(0));
                    assert forall|j: int| 0 <= j < v@.len() implies #[trigger] keyed_view(v@)[j]
                        == orig.skip(k + 1)[j] by {
                        assert(v@[j] == before[j + 1]);
                        assert(keyed_view(before)[j + 1] == orig.skip(k)[j + 1]);
                    }
                }
                k = k + 1;
            }
        }
        assert(orig.take(k) =~= orig);
        proof {
            lemma_servers_collected_wf(orig);
        }
        UniversalConfig { servers }
    }

    /// The servers, each under its name, in order; each name occurs once.
    pub fn servers(&self) -> (r: &Vec<(String, ServerConfig)>)
        ensures
            keyed_view(r@) == self@.servers,
            self@.wf(),
    {
        proof {
            use_type_invariant(self);
        }
        &self.servers
    }
}

impl ServerView {
    /// Header and environment names each occur once.
    pub open spec fn wf(self) -> bool {
        &&& (self.headers matches Some(h) ==> distinct_names(h))
        &&& (self.env matches Some(e) ==> distinct_names(e))
    }
}

impl ConfigView {
    /// Server names occur once, and each server is well formed.
    pub open spec fn wf(self) -> bool {
        &&& distinct_names(self.servers)
        &&& forall|i: int| 0 <= i < self.servers.len() ==> (#[trigger] self.servers[i]).1.wf()
    }
}

// ---------------------------------------------------------------------
// The shape of the document, field by field, as `serde` reads it into
// the configuration types: an absent or null optional field is no value,
// unknown fields are ignored, a struct may also be written as an array of
// its fields in order, and a unit enum variant as its name or as an object
// whose single member is the name with a null value.

/// An optional text field (outer `None`: the field does not fit).
pub open spec fn decode_opt_text(j: Option<Json>) -> Option<Option<Seq<char>>> {
    match j {
        None => Some(None),
        Some(Json::Null) => Some(None),
        Some(Json::String(s)) => Some(Some(s)),
        _ => None,
    }
}

/// A list of texts.
pub open spec fn decode_texts(items: Seq<Json>) -> Option<Seq<Seq<char>>>
    decreases items.len(),
{
    if items.len() == 0 {
        Some(seq![])
    } else {
        match (decode_texts(items.drop_last()), items.last()) {
            (Some(acc), Json::String(s)) => Some(acc.push(s)),
            _ => None,
        }
    }
}

pub open spec fn decode_opt_texts(j: Option<Json>) -> Option<Option<Seq<Seq<char>>>> {
    match j {
        None => Some(None),
        Some(Json::Null) => Some(None),
        Some(Json::Array(items)) => match decode_texts(items) {
            Some(t) => Some(Some(t)),
            None => None,
        },
        _ => None,
    }
}

/// A table from names to texts, filled member by member (a later member
/// of the same name replaces the value of an earlier one).
pub open spec fn decode_text_map(m: Seq<(Seq<char>, Json)>) -> Option<Seq<(Seq<char>, Seq<char>)>>
    decreases m.len(),
{
    if m.len() == 0 {
        Some(seq![])
    } else {
        match (decode_text_map(m.drop_last()), m.last().1) {
            (Some(acc), Json::String(v)) => Some(object_insert(acc, m.last().0, v)),
            _ => None,
        }
    }
}

pub open spec fn decode_opt_text_map(j: Option<Json>) -> Option<
    Option<Seq<(Seq<char>, Seq<char>)>>,
> {
    match j {
        None => Some(None),
        Some(Json::Null) => Some(None),
        Some(Json::Object(m)) => match decode_text_map(m) {
            Some(t) => Some(Some(t)),
            None => None,
        },
        _ => None,
    }
}

/// The transport that a variant name stands for.
pub open spec fn transport_named(s: Seq<char>) -> Option<Transport> {
    if s == "http"@ {
        Some(Transport::Http)
    } else if s == "stdio"@ {
        Some(Transport::Stdio)
    } else {
        None
    }
}

pub open spec fn decode_transport(j: Json) -> Option<Transport> {
    match j {
        Json::String(s) => transport_named(s),
        Json::Object(m) => if m.len() == 1 && m[0].1 is Null {
            transport_named(m[0].0)
        } else {
            None
        },
        _ => None,
    }
}

/// A server from its six fields (a field that is not there is `None`).
pub open spec fn server_from_fields(
    transport: Option<Json>,
    url: Option<Json>,
    headers: Option<Json>,
    command: Option<Json>,
    args: Option<Json>,
    env: Option<Json>,
) -> Option<ServerView> {
    match transport {
        None => None,
        Some(t) => match (
            decode_transport(t),
            decode_opt_text(url),
            decode_opt_text_map(headers),
            decode_opt_text(command),
            decode_opt_texts(args),
            decode_opt_text_map(env),
        ) {
            (Some(t), Some(u), Some(h), Some(c), Some(a), Some(e)) => Some(
                ServerView { transport: t, url: u, headers: h, command: c, args: a, env: e },
            ),
            _ => None,
        },
    }
}

/// No field of a server is given twice (other members are ignored, and
/// may repeat).
pub open spec fn server_fields_once(m: Seq<(Seq<char>, Json)>) -> bool {
    &&& named_at_most_once(m, "transport"@)
    &&& named_at_most_once(m, "url"@)
    &&& named_at_most_once(m, "headers"@)
    &&& named_at_most_once(m, "command"@)
    &&& named_at_most_once(m, "args"@)
    &&& named_at_most_once(m, "env"@)
}

/// A server from its fields, given as an object (each field at most once)
/// or as an array of six.
pub open spec fn decode_server(j: Json) -> Option<ServerView> {
    match j {
        Json::Object(m) => if server_fields_once(m) {
            server_from_fields(
                lookup(m, "transport"@),
                lookup(m, "url"@),
                lookup(m, "headers"@),
                lookup(m, "command"@),
                lookup(m, "args"@),
                lookup(m, "env"@),
            )
        } else {
            None
        },
        Json::Array(items) => if items.len() == 6 {
            server_from_fields(
                Some(items[0]),
                Some(items[1]),
                Some(items[2]),
                Some(items[3]),
                Some(items[4]),
                Some(items[5]),
            )
        } else {
            None
        },
        _ => None,
    }
}

/// The servers, filled member by member (a later member of the same name
/// replaces an earlier one).
pub open spec fn decode_servers(m: Seq<(Seq<char>, Json)>) -> Option<Seq<(Seq<char>, ServerView)>>
    decreases m.len(),
{
    if m.len() == 0 {
        Some(seq![])
    } else {
        match (decode_servers(m.drop_last()), decode_server(m.last().1)) {
            (Some(acc), Some(s)) => Some(object_insert(acc, m.last().0, s)),
            _ => None,
        }
    }
}

pub open spec fn decode_server_table(j: Json) -> Option<ConfigView> {
    match j {
        Json::Object(m) => match decode_servers(m) {
            Some(s) => Some(ConfigView { servers: s }),
            None => None,
        },
        _ => None,
    }
}

/// The configuration that a JSON document describes, if it has the shape
/// of one.
pub open spec fn decode_config(j: Json) -> Option<ConfigView> {
    match j {
        Json::Object(m) => if named_at_most_once(m, "servers"@) {
            match lookup(m, "servers"@) {
                Some(s) => decode_server_table(s),
                None => None,
            }
        } else {
            None
        },
        Json::Array(items) => if items.len() == 1 {
            decode_server_table(items[0])
        } else {
            None
        },
        _ => None,
    }
}

// ---------------------------------------------------------------------
// Checking the servers.

/// Why a configuration is refused.
#[derive(Debug)]
pub enum ConfigError {
    /// The document does not have the shape of a configuration.
    Malformed,
    /// The named server uses http and gives no url.
    MissingUrl(String),
    /// The named server uses stdio and gives no command.
    MissingCommand(String),
}

pub enum ConfigErrorView {
    Malformed,
    MissingUrl(Seq<char>),
    MissingCommand(Seq<char>),
}

impl View for ConfigError {
    type V = ConfigErrorView;

    open spec fn view(&self) -> ConfigErrorView {
        match self {
            ConfigError::Malformed => ConfigErrorView::Malformed,
            ConfigError::MissingUrl(n) => ConfigErrorView::MissingUrl(n@),
            ConfigError::MissingCommand(n) => ConfigErrorView::MissingCommand(n@),
        }
    }
}

/// A server gives what its transport needs: a url for http, a command for stdio.
pub open spec fn server_complete(s: ServerView) -> bool {
    match s.transport {
        Transport::Http => s.url is Some,
        Transport::Stdio => s.command is Some,
    }
}

/// The error for an incomplete server of the given name.
pub open spec fn incomplete_error(name: Seq<char>, s: ServerView) -> ConfigErrorView {
    match s.transport {
        Transport::Http => ConfigErrorView::MissingUrl(name),
        Transport::Stdio => ConfigErrorView::MissingCommand(name),
    }
}

/// The servers checked in order: the first incomplete one is reported.
pub open spec fn check_servers(servers: Seq<(Seq<char>, ServerView)>) -> Result<(), ConfigErrorView>
    decreases servers.len(),
{
    if servers.len() == 0 {
        Ok(())
    } else if !server_complete(servers[0].1) {
        Err(incomplete_error(servers[0].0, servers[0].1))
    } else {
        check_servers(servers.drop_first())
    }
}

/// The configuration that a document gives, or why it is refused.
pub open spec fn read_config(j: Json) -> Result<ConfigView, ConfigErrorView> {
    match decode_config(j) {
        None => Err(ConfigErrorView::Malformed),
        Some(c) => match check_servers(c.servers) {
            Ok(_) => Ok(c),
            Err(e) => Err(e),
        },
    }
}

pub open spec fn config_result_view(r: Result<UniversalConfig, ConfigError>) -> Result<
    ConfigView,
    ConfigErrorView,
> {
    match r {
        Ok(c) => Ok(c@),
        Err(e) => Err(e@),
    }
}

/// The view of an optional borrowed document.
pub open spec fn opt_view(j: Option<&JsonValue>) -> Option<Json> {
    match j {
        Some(v) => Some(v@),
        None => None,
    }
}

proof fn lemma_texts_prefix_none(s: Seq<Json>, k: int)
    requires
        0 <= k <= s.len(),
        decode_texts(s.subrange(0, k)) is None,
    ensures
        decode_texts(s) is None,
    decreases s.len() - k,
{
    if k < s.len() {
        assert(s.subrange(0, k + 1).drop_last() =~= s.subrange(0, k));
        lemma_texts_prefix_none(s, k + 1);
    } else {
        assert(s.subrange(0, k) =~= s);
    }
}

proof fn lemma_text_map_prefix_none(s: Seq<(Seq<char>, Json)>, k: int)
    requires
        0 <= k <= s.len(),
        decode_text_map(s.subrange(0, k)) is None,
    ensures
        decode_text_map(s) is None,
    decreases s.len() - k,
{
    if k < s.len() {
        assert(s.subrange(0, k + 1).drop_last() =~= s.subrange(0, k));
        lemma_text_map_prefix_none(s, k + 1);
    } else {
        assert(s.subrange(0, k) =~= s);
    }
}

proof fn lemma_servers_prefix_none(s: Seq<(Seq<char>, Json)>, k: int)
    requires
        0 <= k <= s.len(),
        decode_servers(s.subrange(0, k)) is None,
    ensures
        decode_servers(s) is None,
    decreases s.len() - k,
{
    if k < s.len() {
        assert(s.subrange(0, k + 1).drop_last() =~= s.subrange(0, k));
        lemma_servers_prefix_none(s, k + 1);
    } else {
        assert(s.subrange(0, k) =~= s);
    }
}

fn read_opt_text(j: Option<&JsonValue>) -> (r: Option<Option<String>>)
    ensures
        r is None <==> decode_opt_text(opt_view(j)) is None,
        r matches Some(o) ==> decode_opt_text(opt_view(j)) == Some(opt_text(o)),
{
    match j {
        None => Some(None),
        Some(JsonValue::Null) => Some(None),
        Some(JsonValue::String(s)) => Some(Some(s.clone())),
        _ => None,
    }
}

fn read_texts(items: &Vec<JsonValue>) -> (r: Option<Vec<String>>)
    ensures
        r is None <==> decode_texts(items_view(items@)) is None,
        r matches Some(t) ==> decode_texts(items_view(items@)) == Some(texts(t@)),
{
    let ghost iv = items_view(items@);
    let mut acc: Vec<String> = Vec::new();
    let mut i: usize = 0;
    assert(iv.subrange(0, 0) =~= Seq::<Json>::empty());
    assert(texts(acc@) =~= Seq::<Seq<char>>::empty());
    while i < items.len()
        invariant
            iv == items_view(items@),
            i <= items@.len(),
            decode_texts(iv.subrange(0, i as int)) == Some(texts(acc@)),
        decreases items@.len() - i,
    {
        let ghost p = iv.subrange(0, i + 1);
        assert(p.drop_last() =~= iv.subrange(0, i as int));
        assert(p.last() == items@[i as int]@);
        match &items[i] {
            JsonValue::String(s) => {
                let ghost before = acc@;
                acc.push(s.clone());
                assert(texts(acc@) =~= texts(before).push(s@));
            },
            _ => {
                proof {
                    lemma_texts_prefix_none(iv, i + 1);
                }
                return None;
            },
        }
        i = i + 1;
    }
    assert(iv.subrange(0, i as int) =~= iv);
    Some(acc)
}

fn read_opt_texts(j: Option<&JsonValue>) -> (r: Option<Option<Vec<String>>>)
    ensures
        r is None <==> decode_opt_texts(opt_view(j)) is None,
        r matches Some(o) ==> decode_opt_texts(opt_view(j)) == Some(opt_texts(o)),
{
    match j {
        None => Some(None),
        Some(JsonValue::Null) => Some(None),
        Some(JsonValue::Array(items)) => {
            proof {
                lemma_array_view(*items);
            }
            match read_texts(items) {
                Some(t) => Some(Some(t)),
                None => None,
            }
        },
        _ => None,
    }
}

fn read_text_map(m: &Vec<(String, JsonValue)>) -> (r: Option<Vec<(String, String)>>)
    ensures
        r is None <==> decode_text_map(members_view(m@)) is None,
        r matches Some(t) ==> decode_text_map(members_view(m@)) == Some(keyed_view(t@)),
{
    let ghost mv = members_view(m@);
    let mut acc: Vec<(String, String)> = Vec::new();
    let mut i: usize = 0;
    assert(mv.subrange(0, 0) =~= Seq::<(Seq<char>, Json)>::empty());
    assert(keyed_view(acc@) =~= Seq::<(Seq<char>, Seq<char>)>::empty());
    while i < m.len()
        invariant
            mv == members_view(m@),
            i <= m@.len(),
            decode_text_map(mv.subrange(0, i as int)) == Some(keyed_view(acc@)),
        decreases m@.len() - i,
    {
        let ghost p = mv.subrange(0, i + 1);
        assert(p.drop_last() =~= mv.subrange(0, i as int));
        assert(p.last() == (m@[i as int].0@, m@[i as int].1@));
        match &m[i].1 {
            JsonValue::String(v) => {
                keyed_insert(&mut acc, m[i].0.clone(), v.clone());
            },
            _ => {
                proof {
                    lemma_text_map_prefix_none(mv, i + 1);
                }
                return None;
            },
        }
        i = i + 1;
    }
    assert(mv.subrange(0, i as int) =~= mv);
    Some(acc)
}

fn read_opt_text_map(j: Option<&JsonValue>) -> (r: Option<Option<Vec<(String, String)>>>)
    ensures
        r is None <==> decode_opt_text_map(opt_view(j)) is None,
        r matches Some(o) ==> decode_opt_text_map(opt_view(j)) == Some(opt_pairs(o)),
{
    match j {
        None => Some(None),
        Some(JsonValue::Null) => Some(None),
        Some(JsonValue::Object(m)) => {
            proof {
                lemma_object_view(*m);
            }
            match read_text_map(m) {
                Some(t) => Some(Some(t)),
                None => None,
            }
        },
        _ => None,
    }
}

fn transport_from_name(s: &String) -> (r: Option<Transport>)
    ensures
        r == transport_named(s@),
{
    if *s == String::from_str("http") {
        Some(Transport::Http)
    } else if *s == String::from_str("stdio") {
        Some(Transport::Stdio)
    } else {
        None
    }
}

fn read_transport(j: &JsonValue) -> (r: Option<Transport>)
    ensures
        r == decode_transport(j@),
{
    match j {
        JsonValue::String(s) => transport_from_name(s),
        JsonValue::Object(m) => {
            proof {
                lemma_object_view(*m);
            }
            if m.len() == 1 && m[0].1.is_null() {
                assert(members_view(m@)[0] == (m@[0].0@, m@[0].1@));
                transport_from_name(&m[0].0)
            } else {
                None
            }
        },
        _ => None,
    }
}

fn server_from_parts(
    transport: Option<&JsonValue>,
    url: Option<&JsonValue>,
    headers: Option<&JsonValue>,
    command: Option<&JsonValue>,
    args: Option<&JsonValue>,
    env: Option<&JsonValue>,
) -> (r: Option<ServerConfig>)
    ensures
        r is None <==> server_from_fields(
            opt_view(transport),
            opt_view(url),
            opt_view(headers),
            opt_view(command),
            opt_view(args),
            opt_view(env),
        ) is None,
        r matches Some(c) ==> server_from_fields(
            opt_view(transport),
            opt_view(url),
            opt_view(headers),
            opt_view(command),
            opt_view(args),
            opt_view(env),
        ) == Some(c@),
{
    let t = match transport {
        None => {
            return None;
        },
        Some(t) => t,
    };
    let transport = match read_transport(t) {
        None => {
            return None;
        },
        Some(x) => x,
    };
    let url = match read_opt_text(url) {
        None => {
            return None;
        },
        Some(x) => x,
    };
    let headers = match read_opt_text_map(headers) {
        None => {
            return None;
        },
        Some(x) => x,
    };
    let command = match read_opt_text(command) {
        None => {
            return None;
        },
        Some(x) => x,
    };
    let args = match read_opt_texts(args) {
        None => {
            return None;
        },
        Some(x) => x,
    };
    let env = match read_opt_text_map(env) {
        None => {
            return None;
        },
        Some(x) => x,
    };
    Some(ServerConfig { transport, url, headers, command, args, env })
}

fn fields_once(m: &Vec<(String, JsonValue)>) -> (r: bool)
    ensures
        r == server_fields_once(members_view(m@)),
{
    key_at_most_once(m, &String::from_str("transport")) && key_at_most_once(
        m,
        &String::from_str("url"),
    ) && key_at_most_once(m, &String::from_str("headers")) && key_at_most_once(
        m,
        &String::from_str("command"),
    ) && key_at_most_once(m, &String::from_str("args")) && key_at_most_once(
        m,
        &String::from_str("env"),
    )
}

/// The server that a JSON value describes (see `decode_server`).
pub fn decode_server_config(j: &JsonValue) -> (r: Option<ServerConfig>)
    ensures
        r is None <==> decode_server(j@) is None,
        r matches Some(c) ==> decode_server(j@) == Some(c@),
{
    match j {
        JsonValue::Object(m) => {
            proof {
                lemma_object_view(*m);
            }
            if !fields_once(m) {
                return None;
            }
            server_from_parts(
                j.get("transport"),
                j.get("url"),
                j.get("headers"),
                j.get("command"),
                j.get("args"),
                j.get("env"),
            )
        },
        JsonValue::Array(items) => {
            proof {
                lemma_array_view(*items);
            }
            if items.len() == 6 {
                server_from_parts(
                    Some(&items[0]),
                    Some(&items[1]),
                    Some(&items[2]),
                    Some(&items[3]),
                    Some(&items[4]),
                    Some(&items[5]),
                )
            } else {
                None
            }
        },
        _ => None,
    }
}

fn read_servers(m: &Vec<(String, JsonValue)>) -> (r: Option<Vec<(String, ServerConfig)>>)
    ensures
        r is None <==> decode_servers(members_view(m@)) is None,
        r matches Some(t) ==> decode_servers(members_view(m@)) == Some(keyed_view(t@)),
{
    let ghost mv = members_view(m@);
    let mut acc: Vec<(String, ServerConfig)> = Vec::new();
    let mut i: usize = 0;
    assert(mv.subrange(0, 0) =~= Seq::<(Seq<char>, Json)>::empty());
    assert(keyed_view(acc@) =~= Seq::<(Seq<char>, ServerView)>::empty());
    while i < m.len()
        invariant
            mv == members_view(m@),
            i <= m@.len(),
            decode_servers(mv.subrange(0, i as int)) == Some(keyed_view(acc@)),
        decreases m@.len() - i,
    {
        let ghost p = mv.subrange(0, i + 1);
        assert(p.drop_last() =~= mv.subrange(0, i as int));
        assert(p.last() == (m@[i as int].0@, m@[i as int].1@));
        match decode_server_config(&m[i].1) {
            Some(server) => {
                keyed_insert(&mut acc, m[i].0.clone(), server);
            },
            None => {
                proof {
                    lemma_servers_prefix_none(mv, i + 1);
                }
                return None;
            },
        }
        i = i + 1;
    }
    assert(mv.subrange(0, i as int) =~= mv);
    Some(acc)
}

fn read_server_table(j: &JsonValue) -> (r: Option<UniversalConfig>)
    ensures
        r is None <==> decode_server_table(j@) is None,
        r matches Some(c) ==> decode_server_table(j@) == Some(c@),
{
    match j {
        JsonValue::Object(m) => {
            proof {
                lemma_object_view(*m);
            }
            match read_servers(m) {
                Some(servers) => {
                    proof {
                        lemma_servers_wf(members_view(m@));
                    }
                    Some(UniversalConfig { servers })
                },
                None => None,
            }
        },
        _ => None,
    }
}

/// The configuration that a JSON document describes, if it has the shape
/// of one (see `decode_config`); its servers are not checked here.
pub fn decode_universal_config(doc: &JsonValue) -> (r: Option<UniversalConfig>)
    ensures
        r is None <==> decode_config(doc@) is None,
        r matches Some(c) ==> decode_config(doc@) == Some(c@),
{
    match doc {
        JsonValue::Object(m) => {
            proof {
                lemma_object_view(*m);
            }
            if !key_at_most_once(m, &String::from_str("servers")) {
                return None;
            }
            match doc.get("servers") {
                Some(s) => read_server_table(s),
                None => None,
            }
        },
        JsonValue::Array(items) => {
            proof {
                lemma_array_view(*items);
            }
            if items.len() == 1 {
                read_server_table(&items[0])
            } else {
                None
            }
        },
        _ => None,
    }
}

/// Checks that every server gives what its transport needs, in order:
/// an http server needs a url and a stdio server a command. The first
/// server that does not is named in the error.
pub fn validate_config(config: &UniversalConfig) -> (r: Result<(), ConfigError>)
    ensures
        r is Ok <==> check_servers(config@.servers) is Ok,
        r matches Err(e) ==> check_servers(config@.servers) == Err::<(), ConfigErrorView>(e@),
{
    let ghost sv = config@.servers;
    let mut i: usize = 0;
    assert(sv.skip(0) =~= sv);
    while i < config.servers.len()
        invariant
            sv == config@.servers,
            sv.len() == config.servers@.len(),
            i <= sv.len(),
            check_servers(sv) == check_servers(sv.skip(i as int)),
        decreases sv.len() - i,
    {
        let ghost rest = sv.skip(i as int);
        assert(rest[0] == sv[i as int]);
        assert(rest.drop_first() =~= sv.skip(i + 1));
        let (name, server) = (&config.servers[i].0, &config.servers[i].1);
        assert(sv[i as int] == (name@, server@));
        match server.transport {
            Transport::Http => {
                if server.url.is_none() {
                    return Err(ConfigError::MissingUrl(name.clone()));
                }
            },
            Transport::Stdio => {
                if server.command.is_none() {
                    return Err(ConfigError::MissingCommand(name.clone()));
                }
            },
        }
        i = i + 1;
    }
    assert(sv.skip(i as int) =~= Seq::<(Seq<char>, ServerView)>::empty());
    Ok(())
}

/// The configuration that a JSON document gives, checked; this is what
/// `.agents/mcp.json` holds once its text has been read as JSON.
pub fn parse_universal_config(doc: &JsonValue) -> (r: Result<UniversalConfig, ConfigError>)
    ensures
        config_result_view(r) == read_config(doc@),
{
    match decode_universal_config(doc) {
        None => Err(ConfigError::Malformed),
        Some(config) => match validate_config(&config) {
            Ok(()) => Ok(config),
            Err(e) => Err(e),
        },
    }
}

/// The servers pass the check exactly when every one of them is complete.
pub proof fn lemma_check_servers(servers: Seq<(Seq<char>, ServerView)>)
    ensures
        check_servers(servers) is Ok <==> forall|i: int|
            0 <= i < servers.len() ==> server_complete(#[trigger] servers[i].1),
    decreases servers.len(),
{
    if servers.len() > 0 {
        lemma_check_servers(servers.drop_first());
        if check_servers(servers) is Ok {
            assert forall|i: int| 0 <= i < servers.len() implies server_complete(
                #[trigger] servers[i].1,
            ) by {
                if i > 0 {
                    assert(servers[i] == servers.drop_first()[i - 1]);
                }
            }
        }
        if forall|i: int| 0 <= i < servers.len() ==> server_complete(#[trigger] servers[i].1) {
            assert forall|i: int| 0 <= i < servers.drop_first().len() implies server_complete(
                #[trigger] servers.drop_first()[i].1,
            ) by {
                assert(servers.drop_first()[i] == servers[i + 1]);
            }
        }
    }
}

/// Every entry of `object_insert(m, key, value)` is an entry of `m` or the new one.
proof fn lemma_object_insert_entries<V>(m: Seq<(Seq<char>, V)>, key: Seq<char>, value: V, i: int)
    requires
        0 <= i < object_insert(m, key, value).len(),
    ensures
        object_insert(m, key, value)[i] == (key, value) || (i < m.len()
            && object_insert(m, key, value)[i] == m[i]),
{
    lemma_object_insert_shape(m, key, value);
    lemma_first_index(m, key);
}

proof fn lemma_text_map_distinct(m: Seq<(Seq<char>, Json)>)
    requires
        decode_text_map(m) is Some,
    ensures
        distinct_names(decode_text_map(m)->0),
    decreases m.len(),
{
    if m.len() > 0 {
        lemma_text_map_distinct(m.drop_last());
        let acc = decode_text_map(m.drop_last())->0;
        if let Json::String(v) = m.last().1 {
            lemma_object_insert_distinct(acc, m.last().0, v);
        }
    }
}

/// The text of a member, if it is a text.
pub open spec fn text_of(j: Option<Json>) -> Option<Seq<char>> {
    match j {
        Some(Json::String(v)) => Some(v),
        _ => None,
    }
}

/// A table of texts (headers, environment) keeps every member: it is read
/// exactly when every member holds a text; it then names each name of the
/// members once, and looks each name up to the text of the last member of
/// that name.
pub proof fn lemma_text_map_keeps_every_member(m: Seq<(Seq<char>, Json)>, k: Seq<char>)
    ensures
        decode_text_map(m) is Some <==> forall|i: int| 0 <= i < m.len() ==> (#[trigger] m[i]).1 is String,
        decode_text_map(m) matches Some(t) ==> {
            &&& distinct_names(t)
            &&& lookup(t, k) == text_of(last_lookup(m, k))
            &&& (lookup(t, k) is Some <==> member_names(m).contains(k))
        },
    decreases m.len(),
{
    if m.len() == 0 {
        assert(member_names(m) =~= Seq::<Seq<char>>::empty());
    } else {
        lemma_text_map_keeps_every_member(m.drop_last(), k);
        let d = m.drop_last();
        assert forall|i: int| 0 <= i < d.len() implies #[trigger] d[i] == m[i] by {}
        if decode_text_map(m) is Some {
            lemma_text_map_distinct(m);
            let acc = decode_text_map(d)->0;
            if let Json::String(v) = m.last().1 {
                lemma_object_insert_lookup(acc, m.last().0, v, k);
            }
            lemma_last_lookup_named(m, k);
            lemma_last_lookup_named(d, k);
            assert(forall|i: int| 0 <= i < d.len() ==> (#[trigger] d[i]).1 is String);
            assert(forall|i: int| 0 <= i < m.len() ==> (#[trigger] m[i]).1 is String) by {
                assert forall|i: int| 0 <= i < m.len() implies (#[trigger] m[i]).1 is String by {
                    if i < d.len() {
                        assert(d[i] == m[i]);
                    }
                }
            }
        } else {
            if forall|i: int| 0 <= i < m.len() ==> (#[trigger] m[i]).1 is String {
                assert forall|i: int| 0 <= i < d.len() implies (#[trigger] d[i]).1 is String by {
                    assert(d[i] == m[i]);
                }
                assert(m[m.len() - 1].1 is String);
            }
        }
    }
}

proof fn lemma_decode_server_wf(j: Json)
    requires
        decode_server(j) is Some,
    ensures
        decode_server(j)->0.wf(),
{
    let s = decode_server(j)->0;
    match j {
        Json::Object(m) => {
            if let Some(Json::Object(h)) = lookup(m, "headers"@) {
                lemma_text_map_distinct(h);
            }
            if let Some(Json::Object(e)) = lookup(m, "env"@) {
                lemma_text_map_distinct(e);
            }
        },
        Json::Array(items) => {
            if let Json::Object(h) = items[2] {
                lemma_text_map_distinct(h);
            }
            if let Json::Object(e) = items[5] {
                lemma_text_map_distinct(e);
            }
        },
        _ => {},
    }
}

proof fn lemma_servers_wf(m: Seq<(Seq<char>, Json)>)
    requires
        decode_servers(m) is Some,
    ensures
        (ConfigView { servers: decode_servers(m)->0 }).wf(),
    decreases m.len(),
{
    if m.len() > 0 {
        lemma_servers_wf(m.drop_last());
        let acc = decode_servers(m.drop_last())->0;
        let s = decode_server(m.last().1)->0;
        lemma_decode_server_wf(m.last().1);
        lemma_object_insert_distinct(acc, m.last().0, s);
        let r = object_insert(acc, m.last().0, s);
        assert forall|i: int| 0 <= i < r.len() implies (#[trigger] r[i]).1.wf() by {
            lemma_object_insert_entries(acc, m.last().0, s, i);
        }
    }
}

/// A configuration that is read successfully names each server once, names
/// each header and environment variable of a server once, and every server
/// gives what its transport needs.
pub proof fn lemma_read_config_sound(j: Json)
    requires
        read_config(j) is Ok,
    ensures
        (read_config(j)->Ok_0).wf(),
        forall|i: int|
            0 <= i < (read_config(j)->Ok_0).servers.len() ==> server_complete(
                #[trigger] (read_config(j)->Ok_0).servers[i].1,
            ),
{
    let c = read_config(j)->Ok_0;
    lemma_check_servers(c.servers);
    match j {
        Json::Object(m) => {
            if let Some(Json::Object(t)) = lookup(m, "servers"@) {
                lemma_servers_wf(t);
            }
        },
        Json::Array(items) => {
            if let Json::Object(t) = items[0] {
                lemma_servers_wf(t);
            }
        },
        _ => {},
    }
}

/// The text of an error message for the refusal `e`.
pub open spec fn error_message(e: ConfigErrorView) -> Seq<char> {
    match e {
        ConfigErrorView::Malformed => "the document does not have the shape of a configuration"@,
        ConfigErrorView::MissingUrl(n) => "Server '"@ + n + "': http transport requires 'url'"@,
        ConfigErrorView::MissingCommand(n) => "Server '"@ + n
            + "': stdio transport requires 'command'"@,
    }
}

impl ConfigError {
    /// A message that says why the configuration is refused.
    pub fn message(&self) -> (r: String)
        ensures
            r@ == error_message(self@),
    {
        match self {
            ConfigError::Malformed => String::from_str(
                "the document does not have the shape of a configuration",
            ),
            ConfigError::MissingUrl(n) => {
                let mut r = String::from_str("Server '");
                r.append(n.as_str());
                r.append("': http transport requires 'url'");
                r
            },
            ConfigError::MissingCommand(n) => {
                let mut r = String::from_str("Server '");
                r.append(n.as_str());
                r.append("': stdio transport requires 'command'");
                r
            },
        }
    }
}

impl UniversalConfig {
    /// The server of the given name, if there is one.
    pub fn get(&self, name: &str) -> (r: Option<&ServerConfig>)
        ensures
            r matches Some(s) ==> lookup(self@.servers, name@) == Some(s@),
            r is None ==> lookup(self@.servers, name@) is None,
    {
        match crate::keyed::key_index(&self.servers, &String::from_str(name)) {
            Some(i) => Some(&self.servers[i].1),
            None => None,
        }
    }

    /// The number of servers.
    pub fn len(&self) -> (r: usize)
        ensures
            r == self@.servers.len(),
    {
        self.servers.len()
    }
}

} // verus!
