//! Names of MCP tools and servers.
//!
//! A tool of an MCP server is known to the model as
//! `mcp__{server_name}__{tool_name}`. An older form, `{tool_name}---{server_name}`,
//! is still understood.

use crate::text::{
    begins_with, contains, find_from, has_text, join_text, lemma_find_from, lemma_join_two,
    lemma_split_first, lemma_split_none, lemma_split_pieces, occurs_at, same_text, slices, split, split_text,
    starts_with,
};
use vstd::prelude::*;
use vstd::string::*;

verus! {

/// Prefix of MCP tool names.
pub const MCP_PREFIX: &'static str = "mcp";

/// Separator between the parts of an MCP tool name.
pub const MCP_SEPARATOR: &'static str = "__";

/// Separator of the older form.
pub const MCP_SEPARATOR_LEGACY: &'static str = "---";

/// The message given when a search server has nothing to offer and no message of its own.
pub const DEFAULT_SEARCH_FALLBACK_MESSAGE: &'static str =
    "I’m unable to retrieve the necessary information to answer your question right now. Please try rephrasing or asking about something else.";

/// The names of the servers whose tools search.
pub open spec fn is_search_server_name(name: Seq<char>) -> bool {
    ||| name == "cardea-agentic-search"@
    ||| name == "cardea-agentic-search-mcp-server"@
    ||| name == "cardea-tidb-mcp-server"@
    ||| name == "cardea-qdrant-mcp-server"@
    ||| name == "cardea-elastic-mcp-server"@
    ||| name == "cardea-kwsearch-mcp-server"@
}

/// Whether `name` is that of a search server.
pub fn is_search_server(name: &str) -> (r: bool)
    ensures
        r == is_search_server_name(name@),
{
    same_text(name, "cardea-agentic-search") || same_text(name, "cardea-agentic-search-mcp-server")
        || same_text(name, "cardea-tidb-mcp-server") || same_text(name, "cardea-qdrant-mcp-server")
        || same_text(name, "cardea-elastic-mcp-server") || same_text(
        name,
        "cardea-kwsearch-mcp-server",
    )
}

/// The full name of a tool.
pub open spec fn mcp_name(server: Seq<char>, tool: Seq<char>) -> Seq<char> {
    MCP_PREFIX@ + MCP_SEPARATOR@ + server + MCP_SEPARATOR@ + tool
}

/// The server and the tool that a full name stands for.
pub open spec fn mcp_parts(full: Seq<char>) -> Option<(Seq<char>, Seq<char>)> {
    let parts = split_text(full, MCP_SEPARATOR@);
    if parts.len() == 3 && parts[0] == MCP_PREFIX@ {
        Some((parts[1], parts[2]))
    } else {
        None
    }
}

/// The server and the tool that a full name in either form stands for.
pub open spec fn mcp_parts_compat(full: Seq<char>) -> Option<(Seq<char>, Seq<char>)> {
    let parts = split_text(full, MCP_SEPARATOR_LEGACY@);
    if mcp_parts(full) is Some {
        mcp_parts(full)
    } else if parts.len() == 2 {
        Some((parts[1], parts[0]))
    } else {
        None
    }
}

/// The texts of a pair that may be missing.
pub open spec fn pair_texts(r: Option<(&str, &str)>) -> Option<(Seq<char>, Seq<char>)> {
    match r {
        Some((a, b)) => Some((a@, b@)),
        None => None,
    }
}

/// The full name of the tool `tool_name` of the server `server_name`.
pub fn format_mcp_tool_name(server_name: &str, tool_name: &str) -> (r: String)
    ensures
        r@ == mcp_name(server_name@, tool_name@),
{
    let mut r = MCP_PREFIX.to_owned();
    r.append(MCP_SEPARATOR);
    r.append(server_name);
    r.append(MCP_SEPARATOR);
    r.append(tool_name);
    r
}

/// The server and the tool of a full name; `None` when the name has another form.
pub fn parse_mcp_tool_name(full_name: &str) -> (r: Option<(&str, &str)>)
    ensures
        pair_texts(r) == mcp_parts(full_name@),
{
    proof {
        reveal_strlit("__");
    }
    let parts = split(full_name, MCP_SEPARATOR);
    proof {
        assert(parts@.len() == slices(parts@).len());
        assert(parts@.len() > 0 ==> slices(parts@)[0] == parts@[0]@);
        assert(parts@.len() == 3 ==> slices(parts@)[1] == parts@[1]@ && slices(parts@)[2] == parts@[2]@);
    }
    if parts.len() == 3 && same_text(parts[0], MCP_PREFIX) {
        Some((parts[1], parts[2]))
    } else {
        None
    }
}

/// The server and the tool of a full name in the current or the older form.
pub fn parse_mcp_tool_name_compat(full_name: &str) -> (r: Option<(&str, &str)>)
    ensures
        pair_texts(r) == mcp_parts_compat(full_name@),
{
    let r = parse_mcp_tool_name(full_name);
    if r.is_some() {
        return r;
    }
    proof {
        reveal_strlit("---");
    }
    let parts = split(full_name, MCP_SEPARATOR_LEGACY);
    proof {
        assert(parts@.len() == slices(parts@).len());
        assert(parts@.len() == 2 ==> slices(parts@)[0] == parts@[0]@ && slices(parts@)[1] == parts@[1]@);
    }
    if parts.len() == 2 {
        Some((parts[1], parts[0]))
    } else {
        None
    }
}

/// Whether `name` is an MCP tool name in either form.
pub fn is_mcp_tool_name(name: &str) -> (r: bool)
    ensures
        r == (begins_with(name@, MCP_PREFIX@ + MCP_SEPARATOR@) || has_text(
            name@,
            MCP_SEPARATOR_LEGACY@,
        )),
{
    let mut prefix = MCP_PREFIX.to_owned();
    prefix.append(MCP_SEPARATOR);
    starts_with(name, prefix.as_str()) || contains(name, MCP_SEPARATOR_LEGACY)
}

/// The tool part of a full name in either form; a name of another form as it is.
pub fn extract_tool_name(full_name: &str) -> (r: &str)
    ensures
        r@ == match mcp_parts_compat(full_name@) {
            Some((server, tool)) => tool,
            None => full_name@,
        },
{
    match parse_mcp_tool_name_compat(full_name) {
        Some((_, tool)) => tool,
        None => full_name,
    }
}

// ---------------------------------------------------------------------------
// Services
// ---------------------------------------------------------------------------

/// An MCP server that the gateway is connected to.
#[derive(Debug, Clone)]
pub struct McpService {
    /// Name of the server.
    pub name: String,
    /// Names of its tools.
    pub tools: Vec<String>,
    /// What to answer when a search of the server finds nothing, if set.
    pub fallback_message: Option<String>,
}

impl McpService {
    /// A server without tools.
    pub fn new(name: &str) -> (r: McpService)
        ensures
            r.name@ == name@,
            r.tools@ == Seq::<String>::empty(),
            r.fallback_message is None,
    {
        McpService { name: name.to_owned(), tools: Vec::new(), fallback_message: None }
    }

    /// A fallback message is set, and it says something.
    pub open spec fn has_fallback(self) -> bool {
        self.fallback_message matches Some(m) && m@.len() > 0
    }

    /// Whether a fallback message is set and says something.
    pub fn has_fallback_message(&self) -> (r: bool)
        ensures
            r == self.has_fallback(),
    {
        match &self.fallback_message {
            Some(m) => !m.as_str().is_empty(),
            None => false,
        }
    }

    /// What to answer when a search finds nothing: the server's message, or the default.
    pub open spec fn fallback(self) -> Seq<char> {
        if self.has_fallback() {
            self.fallback_message->0@
        } else {
            DEFAULT_SEARCH_FALLBACK_MESSAGE@
        }
    }

    /// What to answer when a search finds nothing: the server's message, or the default.
    pub fn fallback_text(&self) -> (r: String)
        ensures
            r@ == self.fallback(),
    {
        if let Some(m) = &self.fallback_message {
            if !m.as_str().is_empty() {
                return m.clone();
            }
        }
        DEFAULT_SEARCH_FALLBACK_MESSAGE.to_owned()
    }
}

/// What the model is told about what a search found.
pub open spec fn search_prompt(fallback: Seq<char>, context: Seq<char>) -> Seq<char> {
    "Please answer the question based on the information between **---BEGIN CONTEXT---** and **---END CONTEXT---**. Do not use any external knowledge. If the information between **---BEGIN CONTEXT---** and **---END CONTEXT---** is empty, please respond with `"@
        + fallback
        + "`. Note that DO NOT use any tools if provided.\n\n---BEGIN CONTEXT---\n\n"@ + context
        + "\n\n---END CONTEXT---"@
}

/// What the model is told of what a tool of a server gave: what a search server
/// found is wrapped, anything else goes as it is.
pub open spec fn tool_text(server: Seq<char>, fallback: Seq<char>, text: Seq<char>) -> Seq<char> {
    if is_search_server_name(server) {
        search_prompt(fallback, text)
    } else {
        text
    }
}

/// What the model is told of what a tool of a server gave.
pub fn tool_result_text(server_name: &str, service: &McpService, text: &str) -> (r: String)
    ensures
        r@ == tool_text(server_name@, service.fallback(), text@),
{
    if is_search_server(server_name) {
        let mut r =
            "Please answer the question based on the information between **---BEGIN CONTEXT---** and **---END CONTEXT---**. Do not use any external knowledge. If the information between **---BEGIN CONTEXT---** and **---END CONTEXT---** is empty, please respond with `".to_owned();
        r.append(service.fallback_text().as_str());
        r.append("`. Note that DO NOT use any tools if provided.\n\n---BEGIN CONTEXT---\n\n");
        r.append(text);
        r.append("\n\n---END CONTEXT---");
        r
    } else {
        text.to_owned()
    }
}

// ---------------------------------------------------------------------------
// Laws
// ---------------------------------------------------------------------------

/// A text that a separator made of one repeated character `c` can follow: it
/// holds no separator, and does not end with that character.
pub open spec fn separable(s: Seq<char>, sep: Seq<char>, c: char) -> bool {
    !has_text(s, sep) && !(s.len() > 0 && s.last() == c)
}

proof fn lemma_no_earlier(a: Seq<char>, sep: Seq<char>, b: Seq<char>, c: char)
    requires
        separable(a, sep, c),
        sep.len() > 0,
        forall|k: int| 0 <= k < sep.len() ==> sep[k] == c,
    ensures
        forall|j: int| 0 <= j < a.len() ==> !occurs_at(a + sep + b, sep, j),
{
    let s = a + sep + b;
    assert forall|j: int| 0 <= j < a.len() implies !occurs_at(s, sep, j) by {
        if occurs_at(s, sep, j) {
            if j + sep.len() <= a.len() {
                assert(a.subrange(j, j + sep.len()) =~= s.subrange(j, j + sep.len()));
                assert(occurs_at(a, sep, j));
            } else {
                let k = a.len() - 1 - j;
                assert(s.subrange(j, j + sep.len())[k] == sep[k]);
                assert(s[a.len() - 1] == a.last());
            }
        }
    }
}

/// The text `a` before a separator is the first piece if and only if it can be told from
/// the separator behind it.
pub proof fn lemma_first_piece(a: Seq<char>, sep: Seq<char>, b: Seq<char>, c: char)
    requires
        sep.len() > 0,
        forall|k: int| 0 <= k < sep.len() ==> sep[k] == c,
    ensures
        separable(a, sep, c) ==> split_text(a + sep + b, sep) == seq![a] + split_text(b, sep),
        split_text(a + sep + b, sep)[0] == a ==> separable(a, sep, c),
{
    let s = a + sep + b;
    let n = sep.len();
    if separable(a, sep, c) {
        lemma_no_earlier(a, sep, b, c);
        lemma_split_first(a, sep, b);
    }
    if split_text(s, sep)[0] == a {
        lemma_split_pieces(s, sep);
        assert(!has_text(split_text(s, sep)[0], sep));
        if a.len() > 0 && a.last() == c {
            let j = a.len() - 1;
            assert(s.subrange(j, j + n) =~= sep);
            assert(occurs_at(s, sep, j));
            lemma_find_from(s, sep, 0);
            assert(find_from(s, sep, 0)->0 <= j);
            assert(split_text(s, sep)[0].len() <= j);
        }
    }
}

proof fn lemma_prefix_first(rest: Seq<char>)
    ensures
        split_text(MCP_PREFIX@ + MCP_SEPARATOR@ + rest, MCP_SEPARATOR@) == seq![MCP_PREFIX@]
            + split_text(rest, MCP_SEPARATOR@),
{
    reveal_strlit("__");
    reveal_strlit("mcp");
    assert forall|j: int| !occurs_at(MCP_PREFIX@, MCP_SEPARATOR@, j) by {
        if occurs_at(MCP_PREFIX@, MCP_SEPARATOR@, j) {
            assert(MCP_PREFIX@.subrange(j, j + 2)[0] == '_');
        }
    }
    lemma_first_piece(MCP_PREFIX@, MCP_SEPARATOR@, rest, '_');
}

/// A name that parses in the current form is the full name made of its parts, and neither
/// part holds the separator.
pub proof fn law_parsed_is_formatted(name: Seq<char>)
    requires
        mcp_parts(name) is Some,
    ensures
        ({
            let (server, tool) = mcp_parts(name)->0;
            &&& mcp_name(server, tool) == name
            &&& !has_text(server, MCP_SEPARATOR@)
            &&& !has_text(tool, MCP_SEPARATOR@)
        }),
{
    reveal_strlit("__");
    lemma_split_pieces(name, MCP_SEPARATOR@);
    let parts = split_text(name, MCP_SEPARATOR@);
    assert(!has_text(parts[1], MCP_SEPARATOR@) && !has_text(parts[2], MCP_SEPARATOR@));
    lemma_join_two(parts.drop_first(), MCP_SEPARATOR@);
    assert(join_text(parts, MCP_SEPARATOR@) =~= mcp_name(parts[1], parts[2]));
}

/// A name that parses in the older form alone is made of its parts, the tool first, and
/// neither part holds the separator.
pub proof fn law_parsed_is_legacy(name: Seq<char>)
    requires
        mcp_parts(name) is None,
        mcp_parts_compat(name) is Some,
    ensures
        ({
            let (server, tool) = mcp_parts_compat(name)->0;
            &&& tool + MCP_SEPARATOR_LEGACY@ + server == name
            &&& !has_text(server, MCP_SEPARATOR_LEGACY@)
            &&& !has_text(tool, MCP_SEPARATOR_LEGACY@)
        }),
{
    reveal_strlit("---");
    lemma_split_pieces(name, MCP_SEPARATOR_LEGACY@);
    let parts = split_text(name, MCP_SEPARATOR_LEGACY@);
    assert(!has_text(parts[0], MCP_SEPARATOR_LEGACY@) && !has_text(
        parts[1],
        MCP_SEPARATOR_LEGACY@,
    ));
    lemma_join_two(parts, MCP_SEPARATOR_LEGACY@);
}

/// A full name is read back as the server and the tool that it was made of, in either way
/// of reading, exactly when the server's name can be told from the separator behind it and
/// the tool's name holds no separator.
pub proof fn law_name_round_trip(server: Seq<char>, tool: Seq<char>)
    ensures
        mcp_parts(mcp_name(server, tool)) == Some((server, tool)) <==> separable(
            server,
            MCP_SEPARATOR@,
            '_',
        ) && !has_text(tool, MCP_SEPARATOR@),
        mcp_parts_compat(mcp_name(server, tool)) == Some((server, tool)) <==> separable(
            server,
            MCP_SEPARATOR@,
            '_',
        ) && !has_text(tool, MCP_SEPARATOR@),
{
    reveal_strlit("__");
    reveal_strlit("mcp");
    reveal_strlit("---");
    let name = mcp_name(server, tool);
    let rest = server + MCP_SEPARATOR@ + tool;
    assert(name =~= MCP_PREFIX@ + MCP_SEPARATOR@ + rest);
    lemma_prefix_first(rest);
    lemma_first_piece(server, MCP_SEPARATOR@, tool, '_');
    let parts = split_text(name, MCP_SEPARATOR@);
    let more = split_text(rest, MCP_SEPARATOR@);
    if separable(server, MCP_SEPARATOR@, '_') && !has_text(tool, MCP_SEPARATOR@) {
        lemma_split_none(tool, MCP_SEPARATOR@);
        assert(parts =~= seq![MCP_PREFIX@, server, tool]);
    }
    if mcp_parts(name) == Some((server, tool)) {
        law_parsed_is_formatted(name);
        assert(parts[1] == more[0]);
    }
    if mcp_parts(name) is None && mcp_parts_compat(name) == Some((server, tool)) {
        law_parsed_is_legacy(name);
        assert(name.len() == tool.len() + 3 + server.len());
    }
}

/// A name in the older form is read back as the server and the tool that it was made of,
/// exactly when it does not have the current form as well, the tool's name can be told
/// from the separator behind it and the server's name holds no separator.
pub proof fn law_legacy_round_trip(server: Seq<char>, tool: Seq<char>)
    ensures
        mcp_parts_compat(tool + MCP_SEPARATOR_LEGACY@ + server) == Some((server, tool)) <==> {
            &&& mcp_parts(tool + MCP_SEPARATOR_LEGACY@ + server) is None
            &&& separable(tool, MCP_SEPARATOR_LEGACY@, '-')
            &&& !has_text(server, MCP_SEPARATOR_LEGACY@)
        },
{
    reveal_strlit("---");
    reveal_strlit("__");
    reveal_strlit("mcp");
    let name = tool + MCP_SEPARATOR_LEGACY@ + server;
    let parts = split_text(name, MCP_SEPARATOR_LEGACY@);
    lemma_first_piece(tool, MCP_SEPARATOR_LEGACY@, server, '-');
    if separable(tool, MCP_SEPARATOR_LEGACY@, '-') && !has_text(server, MCP_SEPARATOR_LEGACY@) {
        lemma_split_none(server, MCP_SEPARATOR_LEGACY@);
        assert(parts =~= seq![tool, server]);
    }
    if mcp_parts_compat(name) == Some((server, tool)) {
        if mcp_parts(name) is Some {
            law_parsed_is_formatted(name);
            assert(name.len() == server.len() + tool.len() + 7);
        } else {
            law_parsed_is_legacy(name);
        }
    }
}

/// Every name that parses, in either form, counts as an MCP tool name.
pub proof fn law_parsed_is_mcp_name(name: Seq<char>)
    requires
        mcp_parts_compat(name) is Some,
    ensures
        begins_with(name, MCP_PREFIX@ + MCP_SEPARATOR@) || has_text(name, MCP_SEPARATOR_LEGACY@),
{
    reveal_strlit("__");
    reveal_strlit("mcp");
    reveal_strlit("---");
    if mcp_parts(name) is Some {
        lemma_find_from(name, MCP_SEPARATOR@, 0);
        let i = find_from(name, MCP_SEPARATOR@, 0)->0;
        assert(split_text(name, MCP_SEPARATOR@)[0] == name.subrange(0, i));
        assert(name.subrange(0, i) == MCP_PREFIX@);
        assert(name.subrange(i, i + 2) == MCP_SEPARATOR@);
        assert(name.subrange(0, 5) =~= name.subrange(0, i) + name.subrange(i, i + 2));
    } else {
        lemma_find_from(name, MCP_SEPARATOR_LEGACY@, 0);
    }
}

/// A full name counts as an MCP tool name.
pub proof fn law_formatted_is_mcp_name(server: Seq<char>, tool: Seq<char>)
    ensures
        begins_with(mcp_name(server, tool), MCP_PREFIX@ + MCP_SEPARATOR@),
{
    let p = MCP_PREFIX@ + MCP_SEPARATOR@;
    assert(mcp_name(server, tool).subrange(0, p.len() as int) =~= p);
}

} // verus!
