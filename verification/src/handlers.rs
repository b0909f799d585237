//! What the gateway does with the requests that it receives.

use crate::chat::message::{ChatRequest, ToolMode, ToolSpec};
use crate::chat::plan::gen_chat_id;
use crate::error::ServerError;
use crate::ids::is_uuid;
use crate::json::{json_string, string_to_json};
use crate::pattern::opt_text;
use crate::text::{chars_of, decimal, decimal_text, same_text};
use crate::text_map::TextMap;
use crate::upstream::{endpoint_url, without_slashes};
use vstd::prelude::*;
use vstd::string::*;

verus! {

/// The identifier of a request: what its header says, or `unknown`.
pub fn request_id(header: Option<&str>) -> (r: String)
    ensures
        r@ == match header {
            Some(h) => h@,
            None => "unknown"@,
        },
{
    match header {
        Some(h) => h.to_owned(),
        None => "unknown".to_owned(),
    }
}

// ---------------------------------------------------------------------------
// Chat
// ---------------------------------------------------------------------------

/// A server of tools, as it is configured.
#[derive(Debug, Clone)]
pub struct ToolServer {
    /// Whether its tools are offered.
    pub enable: bool,
    /// Its tools, once known.
    pub tools: Option<Vec<ToolSpec>>,
}

/// The tools that the servers offer, in order.
pub open spec fn offered(servers: Seq<ToolServer>) -> Seq<ToolSpec>
    decreases servers.len(),
{
    if servers.len() == 0 {
        Seq::empty()
    } else {
        let before = offered(servers.drop_last());
        match servers.last().tools {
            Some(v) if servers.last().enable => before + v@,
            _ => before,
        }
    }
}

/// The tools of every server that offers some are known.
pub open spec fn all_known(servers: Seq<ToolServer>) -> bool {
    forall|i: int| 0 <= i < servers.len() && (#[trigger] servers[i]).enable ==> servers[i].tools is Some
}

/// The tools of a request, none where it has none.
pub open spec fn request_tools(r: ChatRequest) -> Seq<ToolSpec> {
    match r.tools {
        Some(v) => v@,
        None => Seq::empty(),
    }
}

/// `after` is the request `before` with the tools of the servers behind its own.
pub open spec fn has_tools_of(before: ChatRequest, servers: Seq<ToolServer>, after: ChatRequest) -> bool {
    &&& request_tools(after) == request_tools(before) + offered(servers)
    &&& after.messages == before.messages
    &&& after.model == before.model
    &&& offered(servers).len() > 0 ==> (after.tool_choice matches Some(m) && m != ToolMode::Off)
}

/// Adds the tools of the configured servers to a request. Where there are any, the
/// model may call tools as it sees fit, unless the request says more.
pub fn add_mcp_tools(request: &mut ChatRequest, servers: &Vec<ToolServer>)
    requires
        all_known(servers@),
    ensures
        if offered(servers@).len() == 0 {
            *final(request) == *old(request)
        } else {
            &&& final(request).tools is Some
            &&& request_tools(*final(request)) == request_tools(*old(request)) + offered(servers@)
            &&& *final(request) == (ChatRequest {
                tools: final(request).tools,
                tool_choice: match old(request).tool_choice {
                    None => Some(ToolMode::Auto),
                    Some(ToolMode::Off) => Some(ToolMode::Auto),
                    Some(m) => Some(m),
                },
                ..*old(request)
            })
        },
        has_tools_of(*old(request), servers@, *final(request)),
{
    let mut more: Vec<ToolSpec> = Vec::new();
    let mut i: usize = 0;
    assert(more@ =~= offered(servers@.take(0)));
    while i < servers.len()
        invariant
            i <= servers@.len(),
            all_known(servers@),
            more@ == offered(servers@.take(i as int)),
        decreases servers@.len() - i,
    {
        assert(servers@.take(i + 1).drop_last() =~= servers@.take(i as int));
        let ghost before = more@;
        if servers[i].enable {
            assert(servers@[i as int].tools is Some);
            if let Some(tools) = &servers[i].tools {
                let mut k: usize = 0;
                while k < tools.len()
                    invariant
                        k <= tools@.len(),
                        more@ == before + tools@.take(k as int),
                    decreases tools@.len() - k,
                {
                    more.push(tools[k].copy());
                    assert(tools@.take(k + 1) =~= tools@.take(k as int).push(tools@[k as int]));
                    k = k + 1;
                }
                assert(tools@.take(tools@.len() as int) =~= tools@);
            }
        }
        i = i + 1;
    }
    assert(servers@.take(servers@.len() as int) =~= servers@);
    if more.len() == 0 {
        return ;
    }
    let mut tools: Vec<ToolSpec> = Vec::new();
    std::mem::swap(&mut tools, &mut more);
    if let Some(own) = &request.tools {
        let mut all: Vec<ToolSpec> = Vec::new();
        let mut k: usize = 0;
        while k < own.len()
            invariant
                k <= own@.len(),
                all@ == own@.take(k as int),
            decreases own@.len() - k,
        {
            all.push(own[k].copy());
            assert(own@.take(k + 1) =~= own@.take(k as int).push(own@[k as int]));
            k = k + 1;
        }
        assert(own@.take(own@.len() as int) =~= own@);
        all.append(&mut tools);
        request.tools = Some(all);
    } else {
        request.tools = Some(tools);
    }
    assert(request_tools(*request) =~= request_tools(*old(request)) + offered(servers@));
    let auto = match &request.tool_choice {
        None => true,
        Some(m) => match m {
            ToolMode::Off => true,
            _ => false,
        },
    };
    if auto {
        request.tool_choice = Some(ToolMode::Auto);
    }
}

/// Makes a chat request ready: it gets a user, where it names none, and the tools of
/// the configured servers.
pub fn prepare_chat(request: &mut ChatRequest, servers: &Vec<ToolServer>)
    requires
        all_known(servers@),
    ensures
        final(request).user is Some,
        old(request).user is Some ==> final(request).user == old(request).user,
        old(request).user is None ==> exists|id: Seq<char>|
            is_uuid(id) && opt_text(final(request).user) == Some("chatcmpl-"@ + id),
        offered(servers@).len() == 0 ==> final(request).tools == old(request).tools
            && final(request).tool_choice == old(request).tool_choice,
        offered(servers@).len() > 0 ==> final(request).tools is Some && request_tools(
            *final(request),
        ) == request_tools(*old(request)) + offered(servers@) && final(request).tool_choice
            == match old(request).tool_choice {
            None => Some(ToolMode::Auto),
            Some(ToolMode::Off) => Some(ToolMode::Auto),
            Some(m) => Some(m),
        },
        *final(request) == (ChatRequest {
            user: final(request).user,
            tools: final(request).tools,
            tool_choice: final(request).tool_choice,
            ..*old(request)
        }),
{
    if request.user.is_none() {
        request.user = Some(gen_chat_id());
    }
    add_mcp_tools(request, servers);
}

/// The model that a new conversation is recorded with.
pub fn conversation_model(model: &Option<String>) -> (r: String)
    ensures
        r@ == match *model {
            Some(m) => m@,
            None => "default"@,
        },
{
    match model {
        Some(m) => m.clone(),
        None => "default".to_owned(),
    }
}

// ---------------------------------------------------------------------------
// Servers behind the gateway
// ---------------------------------------------------------------------------

/// What a server behind the gateway is asked for.
#[derive(Debug, Clone, Copy, PartialEq, Eq, Structural)]
pub enum Service {
    Chat,
    Embeddings,
    Transcribe,
    Translate,
    Tts,
    Image,
}

impl Service {
    /// What is answered when there is no server for it.
    pub open spec fn missing(self) -> Seq<char> {
        match self {
            Service::Chat =>
                "No chat server available. Please register a chat server via the `/admin/servers/register` endpoint."@,
            Service::Embeddings =>
                "No embedding server available. Please register a embedding server via the `/admin/servers/register` endpoint."@,
            Service::Transcribe => "No transcribe server available"@,
            Service::Translate => "No translate server available"@,
            Service::Tts => "No tts server available"@,
            Service::Image => "No image server available"@,
        }
    }

    /// What is answered when there is no server for it.
    pub fn missing_error(self) -> (r: ServerError)
        ensures
            r.is_operation(self.missing()),
    {
        ServerError::operation(
            match self {
                Service::Chat =>
                    "No chat server available. Please register a chat server via the `/admin/servers/register` endpoint.",
                Service::Embeddings =>
                    "No embedding server available. Please register a embedding server via the `/admin/servers/register` endpoint.",
                Service::Transcribe => "No transcribe server available",
                Service::Translate => "No translate server available",
                Service::Tts => "No tts server available",
                Service::Image => "No image server available",
            },
        )
    }

    /// Its name in messages.
    pub open spec fn name(self) -> Seq<char> {
        match self {
            Service::Chat => "chat"@,
            Service::Embeddings => "embeddings"@,
            Service::Transcribe => "transcribe"@,
            Service::Translate => "translate"@,
            Service::Tts => "tts"@,
            Service::Image => "image"@,
        }
    }

    /// What is answered when no server for it could be chosen, for the reason `e`.
    pub fn unavailable_error(self, e: &str) -> (r: ServerError)
        ensures
            r.is_operation("Failed to get the "@ + self.name() + " server: "@ + e@),
    {
        let mut m = "Failed to get the ".to_owned();
        m.append(
            match self {
                Service::Chat => "chat",
                Service::Embeddings => "embeddings",
                Service::Transcribe => "transcribe",
                Service::Translate => "translate",
                Service::Tts => "tts",
                Service::Image => "image",
            },
        );
        m.append(" server: ");
        m.append(e);
        ServerError::Operation(m)
    }

    /// Where it is found on a server.
    pub open spec fn path(self) -> Seq<char> {
        match self {
            Service::Chat => "/chat/completions"@,
            Service::Embeddings => "/embeddings"@,
            Service::Transcribe => "/audio/transcriptions"@,
            Service::Translate => "/audio/translations"@,
            Service::Tts => "/audio/speech"@,
            Service::Image => "/images/generations"@,
        }
    }

    /// Its address on the server at `base`.
    pub fn url(self, base: &str) -> (r: String)
        ensures
            r@ == without_slashes(base@) + self.path(),
    {
        endpoint_url(
            base,
            match self {
                Service::Chat => "/chat/completions",
                Service::Embeddings => "/embeddings",
                Service::Transcribe => "/audio/transcriptions",
                Service::Translate => "/audio/translations",
                Service::Tts => "/audio/speech",
                Service::Image => "/images/generations",
            },
        )
    }

    /// Whether the headers of a server's answer go to the client; otherwise the
    /// client only learns that it is JSON.
    pub fn passes_headers(self) -> (r: bool)
        ensures
            r == (self == Service::Tts || self == Service::Image),
    {
        match self {
            Service::Tts => true,
            Service::Image => true,
            _ => false,
        }
    }
}

/// The content type of a request, which an embeddings request has to have.
pub fn content_type(header: Option<&str>) -> (r: Result<String, ServerError>)
    ensures
        match header {
            Some(h) => r matches Ok(t) && t@ == h@,
            None => r matches Err(e) && e.is_operation("Missing Content-Type header"@),
        },
{
    match header {
        Some(h) => Ok(h.to_owned()),
        None => Err(ServerError::operation("Missing Content-Type header")),
    }
}

/// What a server is registered for.
#[derive(Debug, Clone, Copy)]
pub struct ServerKind {
    pub chat: bool,
    pub embeddings: bool,
    pub image: bool,
    pub tts: bool,
    pub translate: bool,
    pub transcribe: bool,
}

/// What a server says of itself: the model for each service that it offers, in JSON.
#[derive(Debug, Clone)]
pub struct ApiServer {
    pub server_id: Option<String>,
    pub chat_model: Option<String>,
    pub embedding_model: Option<String>,
    pub image_model: Option<String>,
    pub tts_model: Option<String>,
    pub translate_model: Option<String>,
    pub transcribe_model: Option<String>,
}

/// The first service that the server is registered for and does not offer, as it is told.
pub open spec fn unsupported(kind: ServerKind, server: ApiServer) -> Option<Seq<char>> {
    if kind.chat && server.chat_model is None {
        Some(
            "You are trying to register a chat server. However, the server does not support `chat`. Please check the server kind."@,
        )
    } else if kind.embeddings && server.embedding_model is None {
        Some(
            "You are trying to register an embedding server. However, the server does not support `embeddings`. Please check the server kind."@,
        )
    } else if kind.image && server.image_model is None {
        Some(
            "You are trying to register an image server. However, the server does not support `image`. Please check the server kind."@,
        )
    } else if kind.tts && server.tts_model is None {
        Some(
            "You are trying to register a TTS server. However, the server does not support `tts`. Please check the server kind."@,
        )
    } else if kind.translate && server.translate_model is None {
        Some(
            "You are trying to register a translation server. However, the server does not support `translate`. Please check the server kind."@,
        )
    } else if kind.transcribe && server.transcribe_model is None {
        Some(
            "You are trying to register a transcription server. However, the server does not support `transcribe`. Please check the server kind."@,
        )
    } else {
        None
    }
}

/// Whether a server offers everything that it is registered for.
pub fn verify_server_kind(kind: ServerKind, server: &ApiServer) -> (r: Result<(), ServerError>)
    ensures
        match unsupported(kind, *server) {
            Some(m) => r matches Err(e) && e.is_operation(m),
            None => r is Ok,
        },
{
    if kind.chat && server.chat_model.is_none() {
        Err(
            ServerError::operation(
                "You are trying to register a chat server. However, the server does not support `chat`. Please check the server kind.",
            ),
        )
    } else if kind.embeddings && server.embedding_model.is_none() {
        Err(
            ServerError::operation(
                "You are trying to register an embedding server. However, the server does not support `embeddings`. Please check the server kind.",
            ),
        )
    } else if kind.image && server.image_model.is_none() {
        Err(
            ServerError::operation(
                "You are trying to register an image server. However, the server does not support `image`. Please check the server kind.",
            ),
        )
    } else if kind.tts && server.tts_model.is_none() {
        Err(
            ServerError::operation(
                "You are trying to register a TTS server. However, the server does not support `tts`. Please check the server kind.",
            ),
        )
    } else if kind.translate && server.translate_model.is_none() {
        Err(
            ServerError::operation(
                "You are trying to register a translation server. However, the server does not support `translate`. Please check the server kind.",
            ),
        )
    } else if kind.transcribe && server.transcribe_model.is_none() {
        Err(
            ServerError::operation(
                "You are trying to register a transcription server. However, the server does not support `transcribe`. Please check the server kind.",
            ),
        )
    } else {
        Ok(())
    }
}

/// Takes what a server says of itself into the list of servers, if it offers
/// everything that it is registered for.
pub fn admit_server(
    servers: &mut TextMap<ApiServer>,
    server_id: &str,
    kind: ServerKind,
    info: ApiServer,
) -> (r: Result<(), ServerError>)
    ensures
        match unsupported(kind, info) {
            Some(m) => (r matches Err(e) && e.is_operation(m)) && final(servers)@ == old(servers)@,
            None => r is Ok && exists|s: ApiServer|
                final(servers)@ == #[trigger] old(servers)@.insert(server_id@, s) && s == (
                ApiServer { server_id: s.server_id, ..info }) && opt_text(s.server_id) == Some(
                    server_id@,
                ),
        },
{
    let mut server = info;
    match verify_server_kind(kind, &server) {
        Err(e) => Err(e),
        Ok(()) => {
            server.server_id = Some(server_id.to_owned());
            servers.insert(server_id.to_owned(), server);
            Ok(())
        },
    }
}

/// The chat model of one of the servers that have one.
pub fn chat_model(servers: &TextMap<ApiServer>) -> (r: Option<&String>)
    ensures
        match r {
            Some(m) => exists|k: Seq<char>| #[trigger]
                servers@.dom().contains(k) && servers@[k].chat_model == Some(*m),
            None => forall|k: Seq<char>| #[trigger]
                servers@.dom().contains(k) ==> servers@[k].chat_model is None,
        },
{
    let n: usize = servers.len();
    let mut i: usize = 0;
    while i < n
        invariant
            i <= n,
            n == servers.listed().len(),
            forall|j: int|
                0 <= j < servers.listed().len() ==> servers@.dom().contains(
                    #[trigger] servers.listed()[j].0@,
                ) && servers@[servers.listed()[j].0@] == servers.listed()[j].1,
            forall|j: int| 0 <= j < i ==> (#[trigger] servers.listed()[j]).1.chat_model is None,
        decreases n - i,
    {
        if let Some(m) = &servers.value_at(i).chat_model {
            assert(servers@.dom().contains(servers.listed()[i as int].0@));
            return Some(m);
        }
        i = i + 1;
    }
    assert forall|k: Seq<char>| #[trigger]
        servers@.dom().contains(k) implies servers@[k].chat_model is None by {
        let j = choose|j: int|
            0 <= j < servers.listed().len() && #[trigger] servers.listed()[j].0@ == k;
        assert(servers.listed()[j].1.chat_model is None);
    }
    None
}

/// The models that the servers offer, by service, each in JSON.
#[derive(Debug, Clone)]
pub struct ModelLists {
    pub chat: Vec<String>,
    pub embedding: Vec<String>,
    pub image: Vec<String>,
    pub tts: Vec<String>,
    pub translate: Vec<String>,
    pub transcribe: Vec<String>,
}

/// The values that are there, in order.
pub open spec fn present(s: Seq<Option<String>>) -> Seq<String>
    decreases s.len(),
{
    if s.len() == 0 {
        Seq::empty()
    } else {
        match s.last() {
            Some(v) => present(s.drop_last()).push(v),
            None => present(s.drop_last()),
        }
    }
}

/// One property of every server.
pub open spec fn each(s: Seq<(String, ApiServer)>, f: spec_fn(ApiServer) -> Option<String>) -> Seq<
    Option<String>,
> {
    s.map_values(|e: (String, ApiServer)| f(e.1))
}

fn push_present(v: &mut Vec<String>, m: &Option<String>, Ghost(s): Ghost<Seq<Option<String>>>)
    requires
        old(v)@ == present(s),
    ensures
        final(v)@ == present(s.push(*m)),
{
    assert(s.push(*m).drop_last() =~= s);
    if let Some(t) = m {
        v.push(t.clone());
    }
}

/// `r` lists what the servers offer, by service.
pub open spec fn lists_models(s: Seq<(String, ApiServer)>, r: ModelLists) -> bool {
    &&& r.chat@ == present(each(s, |x: ApiServer| x.chat_model))
    &&& r.embedding@ == present(each(s, |x: ApiServer| x.embedding_model))
    &&& r.image@ == present(each(s, |x: ApiServer| x.image_model))
    &&& r.tts@ == present(each(s, |x: ApiServer| x.tts_model))
    &&& r.translate@ == present(each(s, |x: ApiServer| x.translate_model))
    &&& r.transcribe@ == present(each(s, |x: ApiServer| x.transcribe_model))
}

/// The models that the servers offer.
pub fn collect_models(servers: &TextMap<ApiServer>) -> (r: ModelLists)
    ensures
        r.chat@ == present(each(servers.listed(), |s: ApiServer| s.chat_model)),
        r.embedding@ == present(each(servers.listed(), |s: ApiServer| s.embedding_model)),
        r.image@ == present(each(servers.listed(), |s: ApiServer| s.image_model)),
        r.tts@ == present(each(servers.listed(), |s: ApiServer| s.tts_model)),
        r.translate@ == present(each(servers.listed(), |s: ApiServer| s.translate_model)),
        r.transcribe@ == present(each(servers.listed(), |s: ApiServer| s.transcribe_model)),
        lists_models(servers.listed(), r),
{
    let ghost all = servers.listed();
    let ghost fc = |s: ApiServer| s.chat_model;
    let ghost fe = |s: ApiServer| s.embedding_model;
    let ghost fi = |s: ApiServer| s.image_model;
    let ghost fs = |s: ApiServer| s.tts_model;
    let ghost fl = |s: ApiServer| s.translate_model;
    let ghost fr = |s: ApiServer| s.transcribe_model;
    let mut chat: Vec<String> = Vec::new();
    let mut embedding: Vec<String> = Vec::new();
    let mut image: Vec<String> = Vec::new();
    let mut tts: Vec<String> = Vec::new();
    let mut translate: Vec<String> = Vec::new();
    let mut transcribe: Vec<String> = Vec::new();
    let n: usize = servers.len();
    let mut i: usize = 0;
    while i < n
        invariant
            n == all.len(),
            all == servers.listed(),
            i <= n,
            chat@ == present(each(all, fc).take(i as int)),
            embedding@ == present(each(all, fe).take(i as int)),
            image@ == present(each(all, fi).take(i as int)),
            tts@ == present(each(all, fs).take(i as int)),
            translate@ == present(each(all, fl).take(i as int)),
            transcribe@ == present(each(all, fr).take(i as int)),
            fc == (|s: ApiServer| s.chat_model),
            fe == (|s: ApiServer| s.embedding_model),
            fi == (|s: ApiServer| s.image_model),
            fs == (|s: ApiServer| s.tts_model),
            fl == (|s: ApiServer| s.translate_model),
            fr == (|s: ApiServer| s.transcribe_model),
        decreases n - i,
    {
        let s = servers.value_at(i);
        let ghost k = i as int;
        push_present(&mut chat, &s.chat_model, Ghost(each(all, fc).take(k)));
        push_present(&mut embedding, &s.embedding_model, Ghost(each(all, fe).take(k)));
        push_present(&mut image, &s.image_model, Ghost(each(all, fi).take(k)));
        push_present(&mut tts, &s.tts_model, Ghost(each(all, fs).take(k)));
        push_present(&mut translate, &s.translate_model, Ghost(each(all, fl).take(k)));
        push_present(&mut transcribe, &s.transcribe_model, Ghost(each(all, fr).take(k)));
        assert(each(all, fc).take(k + 1) =~= each(all, fc).take(k).push(fc(all[k].1)));
        assert(each(all, fe).take(k + 1) =~= each(all, fe).take(k).push(fe(all[k].1)));
        assert(each(all, fi).take(k + 1) =~= each(all, fi).take(k).push(fi(all[k].1)));
        assert(each(all, fs).take(k + 1) =~= each(all, fs).take(k).push(fs(all[k].1)));
        assert(each(all, fl).take(k + 1) =~= each(all, fl).take(k).push(fl(all[k].1)));
        assert(each(all, fr).take(k + 1) =~= each(all, fr).take(k).push(fr(all[k].1)));
        i = i + 1;
    }
    assert(each(all, fc).take(all.len() as int) =~= each(all, fc));
    assert(each(all, fe).take(all.len() as int) =~= each(all, fe));
    assert(each(all, fi).take(all.len() as int) =~= each(all, fi));
    assert(each(all, fs).take(all.len() as int) =~= each(all, fs));
    assert(each(all, fl).take(all.len() as int) =~= each(all, fl));
    assert(each(all, fr).take(all.len() as int) =~= each(all, fr));
    ModelLists { chat, embedding, image, tts, translate, transcribe }
}

// ---------------------------------------------------------------------------
// Models
// ---------------------------------------------------------------------------

/// A model, as a server lists it.
#[derive(Debug, Clone)]
pub struct Model {
    pub id: String,
    pub created: u64,
    pub object: String,
    pub owned_by: String,
}

/// What a server answered when asked for its models.
#[derive(Debug, Clone)]
pub enum ModelReply {
    /// The usual list.
    List(Vec<Model>),
    /// The identifiers and times of creation in the `data` field, where there is one.
    Data(Option<Vec<(String, u64)>>),
}

/// The server that lists its models in another way than the others.
pub const OPENROUTER_URL: &'static str = "https://openrouter.ai/api/v1";

/// Whether the models of the server at `url` are listed in its `data` field.
pub fn lists_in_data(url: &str) -> (r: bool)
    ensures
        r == (url@ == OPENROUTER_URL@),
{
    same_text(url, OPENROUTER_URL)
}

/// Where the models of the server at `url` are listed.
pub fn models_url(url: &str) -> (r: String)
    ensures
        r@ == url@ + "/models"@,
{
    let mut r = url.to_owned();
    r.append("/models");
    r
}

/// `m` is the model `e` as it is kept.
pub open spec fn is_openrouter_model(e: (String, u64), m: Model) -> bool {
    m.id == e.0 && m.created == e.1 && m.object@ == "model"@ && m.owned_by@ == "openrouter.ai"@
}

/// Takes the models of a server into the list of models, in place of those that it
/// had before. `listed_at` is where they are listed.
pub fn update_models(
    models: &mut TextMap<Vec<Model>>,
    server_id: &str,
    listed_at: &str,
    reply: ModelReply,
) -> (r: Result<(), ServerError>)
    ensures
        match reply {
            ModelReply::List(v) => r is Ok && final(models)@ == old(models)@.insert(server_id@, v),
            ModelReply::Data(Some(d)) => r is Ok && exists|v: Vec<Model>|
                final(models)@ == #[trigger] old(models)@.insert(server_id@, v) && v@.len()
                    == d@.len() && forall|i: int|
                    0 <= i < d@.len() ==> is_openrouter_model(d@[i], #[trigger] v@[i]),
            ModelReply::Data(None) => final(models)@ == old(models)@ && (r matches Err(e)
                && e.is_operation(
                "Failed to get the models from "@ + listed_at@
                    + ". Not found `data` field in the response."@,
            )),
        },
{
    match reply {
        ModelReply::List(v) => {
            models.insert(server_id.to_owned(), v);
            Ok(())
        },
        ModelReply::Data(Some(d)) => {
            let mut v: Vec<Model> = Vec::new();
            let mut i: usize = 0;
            while i < d.len()
                invariant
                    i <= d@.len(),
                    v@.len() == i,
                    forall|j: int| 0 <= j < i ==> is_openrouter_model(d@[j], #[trigger] v@[j]),
                decreases d@.len() - i,
            {
                v.push(
                    Model {
                        id: d[i].0.clone(),
                        created: d[i].1,
                        object: "model".to_owned(),
                        owned_by: "openrouter.ai".to_owned(),
                    },
                );
                i = i + 1;
            }
            models.insert(server_id.to_owned(), v);
            Ok(())
        },
        ModelReply::Data(None) => {
            let mut m = "Failed to get the models from ".to_owned();
            m.append(listed_at);
            m.append(". Not found `data` field in the response.");
            Err(ServerError::Operation(m))
        },
    }
}

/// The models of all servers, one server after the other.
pub open spec fn models_of(s: Seq<(String, Vec<Model>)>) -> Seq<Model>
    decreases s.len(),
{
    if s.len() == 0 {
        Seq::empty()
    } else {
        models_of(s.drop_last()) + s.last().1@
    }
}

/// The models of all servers.
pub fn list_models(models: &TextMap<Vec<Model>>) -> (r: Vec<Model>)
    ensures
        r@ == models_of(models.listed()),
{
    let ghost all = models.listed();
    let n: usize = models.len();
    let mut r: Vec<Model> = Vec::new();
    let mut i: usize = 0;
    assert(r@ =~= models_of(all.take(0)));
    while i < n
        invariant
            i <= n,
            n == all.len(),
            all == models.listed(),
            r@ == models_of(all.take(i as int)),
        decreases n - i,
    {
        assert(all.take(i + 1).drop_last() =~= all.take(i as int));
        assert(all.take(i + 1).last() == all[i as int]);
        let v = models.value_at(i);
        let ghost before = r@;
        let mut k: usize = 0;
        while k < v.len()
            invariant
                k <= v@.len(),
                r@ == before + v@.take(k as int),
            decreases v@.len() - k,
        {
            r.push(
                Model {
                    id: v[k].id.clone(),
                    created: v[k].created,
                    object: v[k].object.clone(),
                    owned_by: v[k].owned_by.clone(),
                },
            );
            assert(v@.take(k + 1) =~= v@.take(k as int).push(v@[k as int]));
            k = k + 1;
        }
        assert(v@.take(v@.len() as int) =~= v@);
        i = i + 1;
    }
    assert(all.take(n as int) =~= all);
    r
}

// ---------------------------------------------------------------------------
// History
// ---------------------------------------------------------------------------

/// What of the memory is asked for.
#[derive(Debug, Clone, Copy, PartialEq, Eq, Structural)]
pub enum HistoryKind {
    /// The messages of a conversation.
    Conversation,
    /// The messages of a user.
    User,
    /// The conversations of a user.
    Conversations,
}

/// An answer: its status and its body, in JSON.
#[derive(Debug, Clone)]
pub struct JsonReply {
    pub status: u16,
    pub body: String,
}

/// A JSON object that tells an error.
pub open spec fn error_json(m: Seq<char>) -> Seq<char> {
    "{\"error\":"@ + json_string(m) + "}"@
}

/// A JSON object that tells an error.
pub fn error_body(m: &str) -> (r: String)
    ensures
        r@ == error_json(m@),
{
    let mut r = "{\"error\":".to_owned();
    r.append(string_to_json(m).as_str());
    r.append("}");
    r
}

/// What was found, in a JSON object.
pub open spec fn history_json(kind: HistoryKind, id: Seq<char>, items: Seq<char>, n: nat) -> Seq<
    char,
> {
    match kind {
        HistoryKind::Conversation => "{\"conversation_id\":"@ + json_string(id) + ",\"messages\":"@
            + items + "}"@,
        HistoryKind::User => "{\"messages\":"@ + items + ",\"user_id\":"@ + json_string(id) + "}"@,
        HistoryKind::Conversations => "{\"conversations\":"@ + items + ",\"total\":"@ + decimal(n)
            + ",\"user_id\":"@ + json_string(id) + "}"@,
    }
}

/// What is told when the memory fails, and with which status.
pub open spec fn history_failure(kind: HistoryKind, e: Seq<char>) -> (u16, Seq<char>) {
    match kind {
        HistoryKind::Conversation => (404, "Conversation not found: "@ + e),
        HistoryKind::User => (500, "Failed to retrieve user history: "@ + e),
        HistoryKind::Conversations => (500, "Failed to retrieve user conversations: "@ + e),
    }
}

/// `r` answers a request for history with what the memory gave.
pub open spec fn is_history_reply(
    kind: HistoryKind,
    id: Seq<char>,
    found: Option<Result<(String, usize), String>>,
    r: JsonReply,
) -> bool {
    match found {
        None => r.status == 503 && r.body@ == error_json("Memory system is not enabled"@),
        Some(Ok((items, n))) => r.status == 200 && r.body@ == history_json(
            kind,
            id,
            items@,
            n as nat,
        ),
        Some(Err(e)) => r.status == history_failure(kind, e@).0 && r.body@ == error_json(
            history_failure(kind, e@).1,
        ),
    }
}

/// The answer to a request for history. `found` is what the memory gave: a JSON
/// array and how many entries it has, or an error; `None` where there is no memory.
pub fn history_reply(kind: HistoryKind, id: &str, found: Option<Result<(String, usize), String>>) -> (r:
    JsonReply)
    ensures
        match found {
            None => r.status == 503 && r.body@ == error_json("Memory system is not enabled"@),
            Some(Ok((items, n))) => r.status == 200 && r.body@ == history_json(
                kind,
                id@,
                items@,
                n as nat,
            ),
            Some(Err(e)) => r.status == history_failure(kind, e@).0 && r.body@ == error_json(
                history_failure(kind, e@).1,
            ),
        },
        is_history_reply(kind, id@, found, r),
{
    match found {
        None => JsonReply { status: 503, body: error_body("Memory system is not enabled") },
        Some(Ok((items, n))) => {
            let body = match kind {
                HistoryKind::Conversation => {
                    let mut b = "{\"conversation_id\":".to_owned();
                    b.append(string_to_json(id).as_str());
                    b.append(",\"messages\":");
                    b.append(items.as_str());
                    b.append("}");
                    b
                },
                HistoryKind::User => {
                    let mut b = "{\"messages\":".to_owned();
                    b.append(items.as_str());
                    b.append(",\"user_id\":");
                    b.append(string_to_json(id).as_str());
                    b.append("}");
                    b
                },
                HistoryKind::Conversations => {
                    let mut b = "{\"conversations\":".to_owned();
                    b.append(items.as_str());
                    b.append(",\"total\":");
                    b.append(decimal_text(n as u64).as_str());
                    b.append(",\"user_id\":");
                    b.append(string_to_json(id).as_str());
                    b.append("}");
                    b
                },
            };
            JsonReply { status: 200, body }
        },
        Some(Err(e)) => {
            let (status, head) = match kind {
                HistoryKind::Conversation => (404u16, "Conversation not found: "),
                HistoryKind::User => (500u16, "Failed to retrieve user history: "),
                HistoryKind::Conversations => (500u16, "Failed to retrieve user conversations: "),
            };
            let mut m = head.to_owned();
            m.append(e.as_str());
            JsonReply { status, body: error_body(m.as_str()) }
        },
    }
}

/// A decimal digit.
pub open spec fn is_digit(c: char) -> bool {
    '0' <= c <= '9'
}

/// The number that decimal digits denote.
pub open spec fn digits_value(s: Seq<char>) -> nat
    decreases s.len(),
{
    if s.len() == 0 {
        0
    } else {
        digits_value(s.drop_last()) * 10 + (s.last() as u32 - 48) as nat
    }
}

/// The digits of a number that may have a plus in front.
pub open spec fn digits_of(s: Seq<char>) -> Seq<char> {
    if s.len() > 0 && s[0] == '+' {
        s.drop_first()
    } else {
        s
    }
}

/// The number that a text denotes, if it denotes one that can be held.
pub open spec fn number_in(s: Seq<char>) -> Option<nat> {
    let d = digits_of(s);
    if d.len() > 0 && (forall|i: int| 0 <= i < d.len() ==> is_digit(#[trigger] d[i]))
        && digits_value(d) <= usize::MAX {
        Some(digits_value(d))
    } else {
        None
    }
}

proof fn lemma_value_grows(s: Seq<char>, i: int)
    requires
        0 <= i <= s.len(),
        forall|k: int| 0 <= k < s.len() ==> is_digit(#[trigger] s[k]),
    ensures
        digits_value(s.take(i)) <= digits_value(s),
    decreases s.len() - i,
{
    if i == s.len() {
        assert(s.take(i) =~= s);
    } else {
        lemma_value_grows(s, i + 1);
        assert(s.take(i + 1).drop_last() =~= s.take(i));
        assert(is_digit(s[i]));
    }
}

/// The number that a text denotes, if it denotes one that can be held.
pub fn parse_usize(s: &str) -> (r: Option<usize>)
    ensures
        match r {
            Some(n) => number_in(s@) == Some(n as nat),
            None => number_in(s@) is None,
        },
{
    let x = chars_of(s);
    let len: usize = x.len();
    let from: usize = if len > 0 && x[0] == '+' {
        1
    } else {
        0
    };
    let ghost d = digits_of(s@);
    assert(d =~= x@.subrange(from as int, len as int));
    if from == len {
        return None;
    }
    let mut n: usize = 0;
    let mut i: usize = from;
    assert(d.take(0) =~= Seq::empty());
    while i < len
        invariant
            x@ == s@,
            len == x@.len(),
            from <= i <= len,
            d == digits_of(s@),
            d =~= x@.subrange(from as int, len as int),
            forall|k: int| 0 <= k < i - from ==> is_digit(#[trigger] d[k]),
            n == digits_value(d.take(i - from)),
        decreases len - i,
    {
        let c = x[i];
        assert(d[i - from] == c);
        if !('0' <= c && c <= '9') {
            assert(!is_digit(d[i - from]));
            return None;
        }
        let v: usize = (c as u32 - 48) as usize;
        assert(d.take(i - from + 1).drop_last() =~= d.take(i - from));
        if n > (usize::MAX - v) / 10 {
            proof {
                if forall|k: int| 0 <= k < d.len() ==> is_digit(#[trigger] d[k]) {
                    lemma_value_grows(d, i - from + 1);
                    assert(n * 10 + v > usize::MAX);
                }
            }
            return None;
        }
        n = n * 10 + v;
        i = i + 1;
    }
    assert(d.take(len - from) =~= d);
    Some(n)
}

} // verus!
