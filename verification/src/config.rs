//! The resolved, typed configuration: which services run on the local host
//! and which remote servers exist, each with its connection coordinates and
//! its ordered list of services.
//!
//! [`resolve_config`] validates a configuration document once, up front, so
//! that the orchestrator never probes optional fields defensively; its
//! contract pins down exactly which documents resolve and to what, and which
//! error an ill-formed document earns.

use vstd::prelude::*;

use crate::document::{lookup, table_get, DocEntry, DocValue};
use crate::parse::{parse_document, toml_document};

verus! {

/// Declared coordinates and services of one remote server.
#[derive(Debug)]
pub struct ServerSpec {
    /// The server's name: its section key in the configuration document.
    pub name: String,
    /// Remote user the server is driven as.
    pub username: String,
    /// Network address of the server.
    pub ip: String,
    /// Remote-shell port, kept as the configured text.
    pub port: String,
    /// Names of the services deployed on this server, in declared order.
    pub services: Vec<String>,
}

/// Mathematical view of a [`ServerSpec`]: every field as a sequence.
#[verifier::ext_equal]
pub struct ServerSpecV {
    pub name: Seq<char>,
    pub username: Seq<char>,
    pub ip: Seq<char>,
    pub port: Seq<char>,
    pub services: Seq<Seq<char>>,
}

impl View for ServerSpec {
    type V = ServerSpecV;

    open spec fn view(&self) -> ServerSpecV {
        ServerSpecV {
            name: self.name@,
            username: self.username@,
            ip: self.ip@,
            port: self.port@,
            services: self.services.deep_view(),
        }
    }
}

impl DeepView for ServerSpec {
    type V = ServerSpecV;

    open spec fn deep_view(&self) -> ServerSpecV {
        self.view()
    }
}

/// A resolved configuration: the locally hosted services and the remote
/// servers, each list in declared order.
#[derive(Debug)]
pub struct Config {
    pub local_services: Vec<String>,
    pub servers: Vec<ServerSpec>,
}

/// Mathematical view of a [`Config`].
#[verifier::ext_equal]
pub struct ConfigV {
    pub local_services: Seq<Seq<char>>,
    pub servers: Seq<ServerSpecV>,
}

impl View for Config {
    type V = ConfigV;

    open spec fn view(&self) -> ConfigV {
        ConfigV {
            local_services: self.local_services.deep_view(),
            servers: self.servers.deep_view(),
        }
    }
}

/// Why a configuration document failed to resolve.
#[derive(Clone, Copy, Debug, PartialEq, Eq, Structural)]
pub enum ConfigError {
    /// The document's top level is not a table of sections.
    NotATable,
    /// The `local` section is present but is not a table, lacks a
    /// `containers` array, or lists a service that is not a string.
    BadLocalSection,
    /// The remote server section at position `index` (counting server
    /// sections only, in declared order) lacks one of `username`, `ip`,
    /// `port` or `containers`, or gives it the wrong shape.
    BadServerEntry { index: usize },
    /// The configuration text is not a valid document at all.
    Unparsable,
}

/// The service names an array resolves to: the strings it holds, in order,
/// or nothing if any element is not a string.
pub open spec fn service_names(vals: Seq<DocValue>) -> Option<Seq<Seq<char>>>
    decreases vals.len(),
{
    if vals.len() == 0 {
        Some(Seq::empty())
    } else {
        match service_names(vals.drop_last()) {
            Some(pre) => match vals.last() {
                DocValue::Str(s) => Some(pre.push(s@)),
                _ => None,
            },
            None => None,
        }
    }
}

/// The locally hosted services a document's entries declare: none when the
/// `local` section is absent, the strings of its `containers` array when it
/// is well-formed, and nothing when it is ill-formed.
pub open spec fn local_names(entries: Seq<DocEntry>) -> Option<Seq<Seq<char>>> {
    match lookup(entries, "local"@) {
        None => Some(Seq::empty()),
        Some(v) => match v {
            DocValue::Table(les) => match lookup(les@, "containers"@) {
                Some(DocValue::Arr(items)) => service_names(items@),
                _ => None,
            },
            _ => None,
        },
    }
}

/// What one server section resolves to: its key as the server name and its
/// `username`, `ip`, `port` strings and `containers` services — or nothing
/// if any of them is missing or has the wrong shape.
pub open spec fn server_entry_spec(e: DocEntry) -> Option<ServerSpecV> {
    match e.value {
        DocValue::Table(fs) => match lookup(fs@, "username"@) {
            Some(DocValue::Str(u)) => match lookup(fs@, "ip"@) {
                Some(DocValue::Str(ip)) => match lookup(fs@, "port"@) {
                    Some(DocValue::Str(p)) => match lookup(fs@, "containers"@) {
                        Some(DocValue::Arr(items)) => match service_names(items@) {
                            Some(names) => Some(
                                ServerSpecV {
                                    name: e.key@,
                                    username: u@,
                                    ip: ip@,
                                    port: p@,
                                    services: names,
                                },
                            ),
                            None => None,
                        },
                        _ => None,
                    },
                    _ => None,
                },
                _ => None,
            },
            _ => None,
        },
        _ => None,
    }
}

/// The keys of the first `n` entries that are server sections: every key but
/// the reserved `local` one, in declared order.
pub open spec fn server_keys_upto(entries: Seq<DocEntry>, n: int) -> Seq<Seq<char>>
    decreases n,
{
    if n <= 0 {
        Seq::empty()
    } else {
        server_keys_upto(entries, n - 1) + if entries[n - 1].key@ == "local"@ {
            Seq::empty()
        } else {
            seq![entries[n - 1].key@]
        }
    }
}

/// The names of the declared remote servers, in declared order.
pub open spec fn server_keys(entries: Seq<DocEntry>) -> Seq<Seq<char>> {
    server_keys_upto(entries, entries.len() as int)
}

/// The resolved server sections among the first `n` entries, in declared
/// order; an ill-formed section contributes nothing.
pub open spec fn resolved_servers_upto(entries: Seq<DocEntry>, n: int) -> Seq<ServerSpecV>
    decreases n,
{
    if n <= 0 {
        Seq::empty()
    } else {
        resolved_servers_upto(entries, n - 1) + if entries[n - 1].key@ == "local"@ {
            Seq::empty()
        } else {
            match server_entry_spec(entries[n - 1]) {
                Some(sv) => seq![sv],
                None => Seq::empty(),
            }
        }
    }
}

/// All resolved server sections of a document's entries.
pub open spec fn resolved_servers(entries: Seq<DocEntry>) -> Seq<ServerSpecV> {
    resolved_servers_upto(entries, entries.len() as int)
}

/// Position (among server sections, counting from `k`) of the first
/// ill-formed server section at or after entry `i`, if any.
pub open spec fn first_bad_server(entries: Seq<DocEntry>, i: int, k: int) -> Option<int>
    decreases entries.len() - i,
{
    if i < 0 || i >= entries.len() {
        None
    } else if entries[i].key@ == "local"@ {
        first_bad_server(entries, i + 1, k)
    } else if server_entry_spec(entries[i]) is None {
        Some(k)
    } else {
        first_bad_server(entries, i + 1, k + 1)
    }
}

/// What a document resolves to, if it is well-formed: its local services and
/// its remote servers in declared order.
pub open spec fn resolved_config(doc: DocValue) -> Option<ConfigV> {
    match doc {
        DocValue::Table(es) => match local_names(es@) {
            Some(locals) => if first_bad_server(es@, 0, 0) is None {
                Some(ConfigV { local_services: locals, servers: resolved_servers(es@) })
            } else {
                None
            },
            None => None,
        },
        _ => None,
    }
}

/// The error an ill-formed document earns: checked in order — the top level
/// must be a table, then the `local` section, then each server section.
pub open spec fn config_error_of(doc: DocValue) -> Option<ConfigError> {
    match doc {
        DocValue::Table(es) => if local_names(es@) is None {
            Some(ConfigError::BadLocalSection)
        } else {
            match first_bad_server(es@, 0, 0) {
                Some(k) => Some(ConfigError::BadServerEntry { index: k as usize }),
                None => None,
            }
        },
        _ => Some(ConfigError::NotATable),
    }
}

/// The names of the declared remote servers: every section of the document
/// but the reserved `local` one, in declared order.
pub fn servers(doc: &DocValue) -> (r: Result<Vec<String>, ConfigError>)
    ensures
        match r {
            Ok(names) => *doc matches DocValue::Table(es) && names.deep_view() == server_keys(es@),
            Err(e) => !(*doc is Table) && e == ConfigError::NotATable,
        },
{
    let entries: &Vec<DocEntry> = match doc {
        DocValue::Table(es) => es,
        _ => {
            return Err(ConfigError::NotATable);
        },
    };
    let lit_local = String::from_str("local");
    let mut names: Vec<String> = Vec::new();
    let mut i: usize = 0;
    while i < entries.len()
        invariant
            0 <= i <= entries@.len(),
            lit_local@ == "local"@,
            names.deep_view() =~= server_keys_upto(entries@, i as int),
        decreases entries@.len() - i,
    {
        if !(entries[i].key == lit_local) {
            let ghost pre = names.deep_view();
            names.push(entries[i].key.clone());
            proof {
                assert(names.deep_view() =~= pre.push(entries@[i as int].key@));
            }
        }
        i = i + 1;
    }
    Ok(names)
}

/// Once the service names of a prefix fail to resolve, no longer prefix
/// resolves either.
proof fn lemma_service_names_none(vals: Seq<DocValue>, i: int, n: int)
    requires
        0 <= i <= n <= vals.len(),
        service_names(vals.take(i)) is None,
    ensures
        service_names(vals.take(n)) is None,
    decreases n - i,
{
    if i < n {
        assert(vals.take(i + 1).drop_last() =~= vals.take(i));
        assert(service_names(vals.take(i + 1)) is None);
        lemma_service_names_none(vals, i + 1, n);
    }
}

/// Reads an array of service names: the strings it holds, in order, or
/// `None` as soon as one element is not a string.
fn service_names_exec(items: &Vec<DocValue>) -> (r: Option<Vec<String>>)
    ensures
        match r {
            Some(names) => service_names(items@) == Some(names.deep_view()),
            None => service_names(items@) is None,
        },
{
    let mut names: Vec<String> = Vec::new();
    let mut i: usize = 0;
    while i < items.len()
        invariant
            0 <= i <= items@.len(),
            service_names(items@.take(i as int)) == Some(names.deep_view()),
        decreases items@.len() - i,
    {
        match &items[i] {
            DocValue::Str(s) => {
                let ghost pre = names.deep_view();
                names.push(s.clone());
                proof {
                    assert(items@.take(i as int + 1).drop_last() =~= items@.take(i as int));
                    assert(names.deep_view() =~= pre.push(s@));
                }
            },
            _ => {
                proof {
                    assert(items@.take(i as int + 1).drop_last() =~= items@.take(i as int));
                    assert(service_names(items@.take(i as int + 1)) is None);
                    lemma_service_names_none(items@, i as int + 1, items@.len() as int);
                    assert(items@.take(items@.len() as int) =~= items@);
                }
                return None;
            },
        }
        i = i + 1;
    }
    proof {
        assert(items@.take(items@.len() as int) =~= items@);
    }
    Some(names)
}

/// Resolves one server section to its coordinates and services, or to
/// nothing if a field is missing or has the wrong shape.
fn resolve_server_entry(e: &DocEntry) -> (r: Option<ServerSpec>)
    ensures
        match r {
            Some(s) => server_entry_spec(*e) == Some(s@),
            None => server_entry_spec(*e) is None,
        },
{
    let fields: &Vec<DocEntry> = match &e.value {
        DocValue::Table(fs) => fs,
        _ => {
            return None;
        },
    };
    let username: String = match table_get(fields, "username") {
        Some(v) => match v {
            DocValue::Str(u) => u.clone(),
            _ => {
                return None;
            },
        },
        None => {
            return None;
        },
    };
    let ip: String = match table_get(fields, "ip") {
        Some(v) => match v {
            DocValue::Str(u) => u.clone(),
            _ => {
                return None;
            },
        },
        None => {
            return None;
        },
    };
    let port: String = match table_get(fields, "port") {
        Some(v) => match v {
            DocValue::Str(u) => u.clone(),
            _ => {
                return None;
            },
        },
        None => {
            return None;
        },
    };
    let items: &Vec<DocValue> = match table_get(fields, "containers") {
        Some(v) => match v {
            DocValue::Arr(a) => a,
            _ => {
                return None;
            },
        },
        None => {
            return None;
        },
    };
    let services: Vec<String> = match service_names_exec(items) {
        Some(names) => names,
        None => {
            return None;
        },
    };
    let s = ServerSpec { name: e.key.clone(), username, ip, port, services };
    proof {
        assert(server_entry_spec(*e) is Some);
        assert(server_entry_spec(*e).unwrap() =~= s@);
    }
    Some(s)
}

/// Validates a configuration document and resolves it into a typed
/// [`Config`], or says exactly why it is ill-formed: the top level must be a
/// table; the optional `local` section must hold a `containers` array of
/// strings; every other section declares a server and must hold `username`,
/// `ip` and `port` strings and a `containers` array of strings.
pub fn resolve_config(doc: &DocValue) -> (r: Result<Config, ConfigError>)
    ensures
        match r {
            Ok(c) => resolved_config(*doc) == Some(c@),
            Err(e) => resolved_config(*doc) is None && config_error_of(*doc) == Some(e),
        },
{
    let entries: &Vec<DocEntry> = match doc {
        DocValue::Table(es) => es,
        _ => {
            return Err(ConfigError::NotATable);
        },
    };
    let local_services: Vec<String> = match table_get(entries, "local") {
        None => Vec::new(),
        Some(v) => match v {
            DocValue::Table(les) => match table_get(les, "containers") {
                Some(cv) => match cv {
                    DocValue::Arr(items) => match service_names_exec(items) {
                        Some(names) => names,
                        None => {
                            return Err(ConfigError::BadLocalSection);
                        },
                    },
                    _ => {
                        return Err(ConfigError::BadLocalSection);
                    },
                },
                None => {
                    return Err(ConfigError::BadLocalSection);
                },
            },
            _ => {
                return Err(ConfigError::BadLocalSection);
            },
        },
    };
    let lit_local = String::from_str("local");
    let mut resolved: Vec<ServerSpec> = Vec::new();
    let mut i: usize = 0;
    while i < entries.len()
        invariant
            0 <= i <= entries@.len(),
            lit_local@ == "local"@,
            *doc is Table,
            doc->Table_0 == *entries,
            local_names(entries@) == Some(local_services.deep_view()),
            resolved.deep_view() =~= resolved_servers_upto(entries@, i as int),
            first_bad_server(entries@, 0, 0) == first_bad_server(
                entries@,
                i as int,
                resolved@.len() as int,
            ),
        decreases entries@.len() - i,
    {
        if !(entries[i].key == lit_local) {
            match resolve_server_entry(&entries[i]) {
                Some(s) => {
                    let ghost pre = resolved.deep_view();
                    let ghost sv = s@;
                    resolved.push(s);
                    proof {
                        assert(resolved.deep_view() =~= pre.push(sv));
                        assert(resolved_servers_upto(entries@, i as int + 1) =~= pre.push(sv));
                    }
                },
                None => {
                    return Err(ConfigError::BadServerEntry { index: resolved.len() });
                },
            }
        }
        i = i + 1;
    }
    let c = Config { local_services, servers: resolved };
    proof {
        assert(resolved_servers(entries@) =~= c.servers.deep_view());
        assert(resolved_config(*doc) is Some);
        assert(resolved_config(*doc).unwrap() =~= c@);
    }
    Ok(c)
}

/// Loads a configuration from its text: parses it and resolves it into a
/// typed [`Config`]. An unparsable text earns [`ConfigError::Unparsable`];
/// a parsed document resolves exactly as [`resolve_config`] says.
pub fn load_config(text: &str) -> (r: Result<Config, ConfigError>)
    ensures
        toml_document(text@) is None ==> r == Err::<Config, ConfigError>(ConfigError::Unparsable),
        toml_document(text@) matches Some(doc) ==> match r {
            Ok(c) => resolved_config(doc) == Some(c@),
            Err(e) => resolved_config(doc) is None && config_error_of(doc) == Some(e),
        },
{
    match parse_document(text) {
        Some(doc) => resolve_config(&doc),
        None => Err(ConfigError::Unparsable),
    }
}

/// One image to publish, with the tags to build and push it under.
#[derive(Debug)]
pub struct PublishEntry {
    pub image: String,
    pub tags: Vec<String>,
}

/// Mathematical view of a [`PublishEntry`].
#[verifier::ext_equal]
pub struct PublishEntryV {
    pub image: Seq<char>,
    pub tags: Seq<Seq<char>>,
}

impl View for PublishEntry {
    type V = PublishEntryV;

    open spec fn view(&self) -> PublishEntryV {
        PublishEntryV { image: self.image@, tags: self.tags.deep_view() }
    }
}

impl DeepView for PublishEntry {
    type V = PublishEntryV;

    open spec fn deep_view(&self) -> PublishEntryV {
        self.view()
    }
}

/// The string elements among the first `n` values of an array, in order;
/// other elements contribute nothing.
pub open spec fn str_items_upto(vals: Seq<DocValue>, n: int) -> Seq<Seq<char>>
    decreases n,
{
    if n <= 0 {
        Seq::empty()
    } else {
        str_items_upto(vals, n - 1) + match vals[n - 1] {
            DocValue::Str(s) => seq![s@],
            _ => Seq::empty(),
        }
    }
}

/// The string elements of an array, in order.
pub open spec fn str_items(vals: Seq<DocValue>) -> Seq<Seq<char>> {
    str_items_upto(vals, vals.len() as int)
}

/// What one element of the `hub.images` array declares: an image name and
/// its tags, read from a two-element array `[name, [tags..]]`; elements of
/// any other shape declare nothing.
pub open spec fn publish_item(item: DocValue) -> Option<PublishEntryV> {
    match item {
        DocValue::Arr(xs) => if xs@.len() >= 2 {
            match xs@[1] {
                DocValue::Arr(tags) => match xs@[0] {
                    DocValue::Str(name) => Some(
                        PublishEntryV { image: name@, tags: str_items(tags@) },
                    ),
                    _ => None,
                },
                _ => None,
            }
        } else {
            None
        },
        _ => None,
    }
}

/// The first `n` entries of `acc` whose image is not `image`, in order.
pub open spec fn drop_image_upto(acc: Seq<PublishEntryV>, image: Seq<char>, n: int) -> Seq<
    PublishEntryV,
>
    decreases n,
{
    if n <= 0 {
        Seq::empty()
    } else {
        drop_image_upto(acc, image, n - 1) + if acc[n - 1].image == image {
            Seq::empty()
        } else {
            seq![acc[n - 1]]
        }
    }
}

/// Adds an entry to the list, replacing any earlier entry for the same
/// image: the earlier one is dropped and the new one appended.
pub open spec fn upsert(acc: Seq<PublishEntryV>, entry: PublishEntryV) -> Seq<PublishEntryV> {
    drop_image_upto(acc, entry.image, acc.len() as int).push(entry)
}

/// The `hub.images` array of a document, or nothing when any level of that
/// path is missing or has the wrong shape.
pub open spec fn publish_source(doc: DocValue) -> Seq<DocValue> {
    match doc {
        DocValue::Table(es) => match lookup(es@, "hub"@) {
            Some(DocValue::Table(hes)) => match lookup(hes@, "images"@) {
                Some(DocValue::Arr(items)) => items@,
                _ => Seq::empty(),
            },
            _ => Seq::empty(),
        },
        _ => Seq::empty(),
    }
}

/// The images declared by the first `n` elements of the `hub.images` array,
/// a later declaration of an image replacing an earlier one.
pub open spec fn publish_upto(items: Seq<DocValue>, n: int) -> Seq<PublishEntryV>
    decreases n,
{
    if n <= 0 {
        Seq::empty()
    } else {
        match publish_item(items[n - 1]) {
            Some(p) => upsert(publish_upto(items, n - 1), p),
            None => publish_upto(items, n - 1),
        }
    }
}

/// The images a document declares for publication, each with its tags.
pub open spec fn publish_entries(doc: DocValue) -> Seq<PublishEntryV> {
    publish_upto(publish_source(doc), publish_source(doc).len() as int)
}

/// Copies a list of strings.
fn clone_string_vec(v: &Vec<String>) -> (r: Vec<String>)
    ensures
        r.deep_view() == v.deep_view(),
{
    let mut out: Vec<String> = Vec::new();
    let mut i: usize = 0;
    while i < v.len()
        invariant
            0 <= i <= v@.len(),
            out.deep_view() =~= v.deep_view().take(i as int),
        decreases v@.len() - i,
    {
        let ghost pre = out.deep_view();
        out.push(v[i].clone());
        proof {
            assert(out.deep_view() =~= pre.push(v.deep_view()[i as int]));
            assert(out.deep_view() =~= v.deep_view().take(i as int + 1));
        }
        i = i + 1;
    }
    proof {
        assert(v.deep_view().take(v@.len() as int) =~= v.deep_view());
    }
    out
}

/// Copies one publish entry.
fn clone_entry(e: &PublishEntry) -> (r: PublishEntry)
    ensures
        r@ == e@,
{
    let r = PublishEntry { image: e.image.clone(), tags: clone_string_vec(&e.tags) };
    proof {
        assert(r@ =~= e@);
    }
    r
}

/// The string elements of an array, in order.
fn str_items_exec(vals: &Vec<DocValue>) -> (r: Vec<String>)
    ensures
        r.deep_view() == str_items(vals@),
{
    let mut out: Vec<String> = Vec::new();
    let mut i: usize = 0;
    while i < vals.len()
        invariant
            0 <= i <= vals@.len(),
            out.deep_view() =~= str_items_upto(vals@, i as int),
        decreases vals@.len() - i,
    {
        match &vals[i] {
            DocValue::Str(s) => {
                let ghost pre = out.deep_view();
                out.push(s.clone());
                proof {
                    assert(out.deep_view() =~= pre.push(s@));
                    assert(str_items_upto(vals@, i as int + 1) =~= out.deep_view());
                }
            },
            _ => {
                proof {
                    assert(str_items_upto(vals@, i as int + 1) =~= out.deep_view());
                }
            },
        }
        i = i + 1;
    }
    out
}

/// Appends `entry`, dropping any earlier entry for the same image.
fn upsert_exec(acc: &Vec<PublishEntry>, entry: PublishEntry) -> (r: Vec<PublishEntry>)
    ensures
        r.deep_view() == upsert(acc.deep_view(), entry@),
{
    let mut out: Vec<PublishEntry> = Vec::new();
    let mut j: usize = 0;
    while j < acc.len()
        invariant
            0 <= j <= acc@.len(),
            out.deep_view() =~= drop_image_upto(acc.deep_view(), entry@.image, j as int),
        decreases acc@.len() - j,
    {
        if !(acc[j].image == entry.image) {
            let ghost pre = out.deep_view();
            out.push(clone_entry(&acc[j]));
            proof {
                assert(out.deep_view() =~= pre.push(acc.deep_view()[j as int]));
                assert(drop_image_upto(acc.deep_view(), entry@.image, j as int + 1)
                    =~= out.deep_view());
            }
        } else {
            proof {
                assert(drop_image_upto(acc.deep_view(), entry@.image, j as int + 1)
                    =~= out.deep_view());
            }
        }
        j = j + 1;
    }
    let ghost dropped = out.deep_view();
    out.push(entry);
    proof {
        assert(out.deep_view() =~= dropped.push(entry@));
    }
    out
}

/// The images the document declares for publication under `hub.images`,
/// each with its tags: entries of the shape `[name, [tags..]]` in declared
/// order, a later entry for an image replacing an earlier one. An absent or
/// ill-shaped `hub.images` declares nothing.
pub fn to_publish(doc: &DocValue) -> (r: Vec<PublishEntry>)
    ensures
        r.deep_view() == publish_entries(*doc),
{
    let out: Vec<PublishEntry> = Vec::new();
    proof {
        assert(out.deep_view() =~= Seq::<PublishEntryV>::empty());
    }
    let entries: &Vec<DocEntry> = match doc {
        DocValue::Table(es) => es,
        _ => {
            return out;
        },
    };
    let hub: &Vec<DocEntry> = match table_get(entries, "hub") {
        Some(v) => match v {
            DocValue::Table(h) => h,
            _ => {
                return out;
            },
        },
        None => {
            return out;
        },
    };
    let items: &Vec<DocValue> = match table_get(hub, "images") {
        Some(v) => match v {
            DocValue::Arr(a) => a,
            _ => {
                return out;
            },
        },
        None => {
            return out;
        },
    };
    let mut acc = out;
    let mut i: usize = 0;
    while i < items.len()
        invariant
            0 <= i <= items@.len(),
            publish_source(*doc) == items@,
            acc.deep_view() =~= publish_upto(items@, i as int),
        decreases items@.len() - i,
    {
        match &items[i] {
            DocValue::Arr(xs) => {
                if xs.len() >= 2 {
                    match &xs[1] {
                        DocValue::Arr(tagvals) => {
                            match &xs[0] {
                                DocValue::Str(name) => {
                                    let tags = str_items_exec(tagvals);
                                    let entry = PublishEntry { image: name.clone(), tags };
                                    proof {
                                        assert(publish_item(items@[i as int]).unwrap() =~= entry@);
                                    }
                                    let next = upsert_exec(&acc, entry);
                                    acc = next;
                                },
                                _ => {},
                            }
                        },
                        _ => {},
                    }
                }
            },
            _ => {},
        }
        proof {
            assert(publish_upto(items@, i as int + 1) =~= acc.deep_view());
        }
        i = i + 1;
    }
    acc
}

} // verus!
