//! The decisions of one conversation turn of the agent: what the system prompt
//! says, which credentials go to the provider, how stored messages are replayed,
//! and when the loop of tool calls stops. The runtime performs the reads, the
//! provider calls and the tool calls that these decisions ask for.

use vstd::prelude::*;
use crate::text::{join, lit, push_str, replace_all, replace_str, to_uppercase, uppercase, views};
use crate::types::{Role, ToolResult};

verus! {

broadcast use vstd::string::group_string_axioms;

/// An important memory, as the system prompt lists it.
pub struct MemoryBrief {
    pub id: String,
    pub brief: String,
    pub created_at: String,
}

/// A channel, as the system prompt lists it.
pub struct ChannelReadiness {
    pub id: String,
    pub name: String,
    pub is_ready: bool,
    pub active_chat: Option<String>,
}

/// `- [id]: brief (created: when)` and a line break.
pub open spec fn brief_line(m: MemoryBrief) -> Seq<char> {
    "- ["@ + m.id@ + "]: "@ + m.brief@ + " (created: "@ + m.created_at@ + ")\n"@
}

/// The lines of the memories, in order.
pub open spec fn brief_lines(ms: Seq<MemoryBrief>) -> Seq<char>
    decreases ms.len(),
{
    if ms.len() == 0 {
        seq![]
    } else {
        brief_lines(ms.drop_last()) + brief_line(ms.last())
    }
}

/// The memories as the system prompt shows them.
pub open spec fn memory_briefs_text(ms: Seq<MemoryBrief>) -> Seq<char> {
    if ms.len() == 0 {
        "(No important memories saved yet)"@
    } else {
        brief_lines(ms)
    }
}

/// `name (id: id, chat: chat)`, with `none` for a channel without a chat.
pub open spec fn channel_entry(c: ChannelReadiness) -> Seq<char> {
    c.name@ + " (id: "@ + c.id@ + ", chat: "@ + match c.active_chat {
        Some(chat) => chat@,
        None => "none"@,
    } + ")"@
}

/// The entries of the channels that are ready, in order.
pub open spec fn ready_entries(cs: Seq<ChannelReadiness>) -> Seq<Seq<char>>
    decreases cs.len(),
{
    if cs.len() == 0 {
        seq![]
    } else if cs.last().is_ready {
        ready_entries(cs.drop_last()).push(channel_entry(cs.last()))
    } else {
        ready_entries(cs.drop_last())
    }
}

/// The ready channels as the system prompt shows them.
pub open spec fn available_channels_text(cs: Seq<ChannelReadiness>) -> Seq<char> {
    if ready_entries(cs).len() == 0 {
        "No other ready channels available."@
    } else {
        join(ready_entries(cs), ", "@)
    }
}

/// What the system prompt is filled in with.
pub struct PromptFacts {
    pub date: String,
    pub time: String,
    pub available_channels: String,
    pub chat_id: String,
    pub channel_id: String,
    pub memory_briefs: String,
}

/// The template with its placeholders filled in, in this order: `{date}`,
/// `{time}`, `{available_channels}`, `{chat_id}`, `{channel_id}`,
/// `{memory_briefs}`.
pub open spec fn filled_prompt(template: Seq<char>, f: PromptFacts) -> Seq<char> {
    let s1 = replace_all(template, "{date}"@, f.date@);
    let s2 = replace_all(s1, "{time}"@, f.time@);
    let s3 = replace_all(s2, "{available_channels}"@, f.available_channels@);
    let s4 = replace_all(s3, "{chat_id}"@, f.chat_id@);
    let s5 = replace_all(s4, "{channel_id}"@, f.channel_id@);
    replace_all(s5, "{memory_briefs}"@, f.memory_briefs@)
}

/// Each loaded skill followed by a line break.
pub open spec fn skill_lines(skills: Seq<Seq<char>>) -> Seq<char>
    decreases skills.len(),
{
    if skills.len() == 0 {
        seq![]
    } else {
        skill_lines(skills.drop_last()) + skills.last() + "\n"@
    }
}

/// The system prompt: the filled template, then the loaded skills under a
/// heading when there are any.
pub open spec fn system_prompt_text(template: Seq<char>, f: PromptFacts, skills: Seq<Seq<char>>) -> Seq<char> {
    if skills.len() == 0 {
        filled_prompt(template, f)
    } else {
        filled_prompt(template, f) + "\n\n--- Loaded Skills ---\n"@ + skill_lines(skills)
    }
}

/// The secret that holds a provider's API key.
pub open spec fn api_key_name_text(provider_id: Seq<char>) -> Seq<char> {
    "PROVIDER_"@ + uppercase(provider_id) + "_API_KEY"@
}

/// The secret that holds a provider's endpoint.
pub open spec fn endpoint_name_text(provider_id: Seq<char>) -> Seq<char> {
    "PROVIDER_"@ + uppercase(provider_id) + "_ENDPOINT"@
}

/// The memories as the system prompt shows them.
pub fn memory_briefs(memories: &Vec<MemoryBrief>) -> (r: String)
    ensures
        r@ == memory_briefs_text(memories@),
{
    if memories.len() == 0 {
        return lit("(No important memories saved yet)");
    }
    let mut out = String::new();
    let mut i: usize = 0;
    while i < memories.len()
        invariant
            i <= memories@.len(),
            out@ == brief_lines(memories@.take(i as int)),
        decreases memories@.len() - i,
    {
        let m = &memories[i];
        assert(memories@.take(i + 1).drop_last() =~= memories@.take(i as int));
        push_str(&mut out, "- [");
        push_str(&mut out, m.id.as_str());
        push_str(&mut out, "]: ");
        push_str(&mut out, m.brief.as_str());
        push_str(&mut out, " (created: ");
        push_str(&mut out, m.created_at.as_str());
        push_str(&mut out, ")\n");
        i = i + 1;
    }
    assert(memories@.take(memories@.len() as int) =~= memories@);
    out
}

/// The ready channels as the system prompt shows them.
pub fn available_channels(channels: &Vec<ChannelReadiness>) -> (r: String)
    ensures
        r@ == available_channels_text(channels@),
{
    let mut entries: Vec<String> = Vec::new();
    let mut i: usize = 0;
    while i < channels.len()
        invariant
            i <= channels@.len(),
            views(entries@) == ready_entries(channels@.take(i as int)),
        decreases channels@.len() - i,
    {
        let c = &channels[i];
        assert(channels@.take(i + 1).drop_last() =~= channels@.take(i as int));
        if c.is_ready {
            let mut e = c.name.clone();
            push_str(&mut e, " (id: ");
            push_str(&mut e, c.id.as_str());
            push_str(&mut e, ", chat: ");
            match &c.active_chat {
                Some(chat) => push_str(&mut e, chat.as_str()),
                None => push_str(&mut e, "none"),
            }
            push_str(&mut e, ")");
            let ghost before = entries@;
            entries.push(e);
            assert(views(entries@) =~= views(before).push(channel_entry(channels@[i as int])));
        }
        i = i + 1;
    }
    assert(channels@.take(channels@.len() as int) =~= channels@);
    if entries.len() == 0 {
        lit("No other ready channels available.")
    } else {
        assert(entries@.map_values(|p: String| p@) =~= views(entries@));
        crate::text::join_strings(&entries, ", ")
    }
}

/// The system prompt for a turn: `template` with its placeholders filled in,
/// then the loaded skills.
pub fn build_system_prompt(template: &str, facts: &PromptFacts, skills: &Vec<String>) -> (r: String)
    ensures
        r@ == system_prompt_text(template@, *facts, views(skills@)),
{
    proof {
        reveal_strlit("{date}");
        reveal_strlit("{time}");
        reveal_strlit("{available_channels}");
        reveal_strlit("{chat_id}");
        reveal_strlit("{channel_id}");
        reveal_strlit("{memory_briefs}");
    }
    let s1 = replace_str(template, "{date}", facts.date.as_str());
    let s2 = replace_str(s1.as_str(), "{time}", facts.time.as_str());
    let s3 = replace_str(s2.as_str(), "{available_channels}", facts.available_channels.as_str());
    let s4 = replace_str(s3.as_str(), "{chat_id}", facts.chat_id.as_str());
    let s5 = replace_str(s4.as_str(), "{channel_id}", facts.channel_id.as_str());
    let mut prompt = replace_str(s5.as_str(), "{memory_briefs}", facts.memory_briefs.as_str());
    if skills.len() > 0 {
        push_str(&mut prompt, "\n\n--- Loaded Skills ---\n");
        let ghost head = prompt@;
        let mut i: usize = 0;
        while i < skills.len()
            invariant
                i <= skills@.len(),
                prompt@ == head + skill_lines(views(skills@).take(i as int)),
            decreases skills@.len() - i,
        {
            assert(views(skills@).take(i + 1).drop_last() =~= views(skills@).take(i as int));
            assert(views(skills@).take(i + 1).last() == skills@[i as int]@);
            push_str(&mut prompt, skills[i].as_str());
            push_str(&mut prompt, "\n");
            i = i + 1;
        }
        assert(views(skills@).take(skills@.len() as int) =~= views(skills@));
    }
    prompt
}

/// The secret that holds the API key of `provider_id`.
pub fn api_key_name(provider_id: &str) -> (r: String)
    ensures
        r@ == api_key_name_text(provider_id@),
{
    let mut out = lit("PROVIDER_");
    let up = to_uppercase(provider_id);
    push_str(&mut out, up.as_str());
    push_str(&mut out, "_API_KEY");
    out
}

/// The secret that holds the endpoint of `provider_id`.
pub fn endpoint_name(provider_id: &str) -> (r: String)
    ensures
        r@ == endpoint_name_text(provider_id@),
{
    let mut out = lit("PROVIDER_");
    let up = to_uppercase(provider_id);
    push_str(&mut out, up.as_str());
    push_str(&mut out, "_ENDPOINT");
    out
}

/// The API key handed to the provider: the vault's value when the vault has
/// one, else the environment secret, else empty.
pub fn choose_api_key(vault_value: Option<String>, env_value: Option<String>) -> (r: String)
    ensures
        r@ == match vault_value {
            Some(v) => v@,
            None => match env_value {
                Some(e) => e@,
                None => seq![],
            },
        },
{
    match vault_value {
        Some(v) => v,
        None => match env_value {
            Some(e) => e,
            None => String::new(),
        },
    }
}

/// The endpoint handed to the provider: the provider's own configuration
/// first, then the vault, then the environment secret.
pub fn choose_endpoint(
    configured: Option<String>,
    vault_value: Option<String>,
    env_value: Option<String>,
) -> (r: Option<String>)
    ensures
        r == match configured {
            Some(c) => Some(c),
            None => match vault_value {
                Some(v) => Some(v),
                None => env_value,
            },
        },
{
    match configured {
        Some(c) => Some(c),
        None => match vault_value {
            Some(v) => Some(v),
            None => env_value,
        },
    }
}

/// The reply given before any provider call when the default provider is
/// missing or not ready; `None` when the turn can go on.
pub fn readiness_reply(provider: Option<(String, bool)>) -> (r: Option<String>)
    ensures
        match provider {
            None => (r matches Some(t) && t@
                == "No LLM provider is configured. Use `/providers <id>` to set one."@),
            Some((id, ready)) => if ready {
                r is None
            } else {
                (r matches Some(t) && t@ == "Provider '"@ + id@
                    + "' is not ready. Use '/models' to select a model."@)
            },
        },
{
    match provider {
        None => Some(lit("No LLM provider is configured. Use `/providers <id>` to set one.")),
        Some((id, ready)) => {
            if ready {
                None
            } else {
                let mut t = lit("Provider '");
                push_str(&mut t, id.as_str());
                push_str(&mut t, "' is not ready. Use '/models' to select a model.");
                Some(t)
            }
        },
    }
}

/// The role a stored message is replayed with, and whether its text is left
/// out: an empty assistant message that carried tool calls is sent without text.
pub fn replay_message(role_name: &str, content: &str, has_tool_calls: bool) -> (r: (Role, Option<String>))
    ensures
        r.0 == Role::from_name_view(role_name@),
        (content@.len() == 0 && r.0 == Role::Assistant && has_tool_calls) ==> r.1 is None,
        !(content@.len() == 0 && r.0 == Role::Assistant && has_tool_calls) ==> (r.1 matches Some(
            t,
        ) && t@ == content@),
{
    let role = Role::from_name(role_name);
    if content.is_empty() && role == Role::Assistant && has_tool_calls {
        (role, None)
    } else {
        (role, Some(crate::text::owned(content)))
    }
}

/// What a provider answered.
pub struct ProviderReply {
    pub content: Option<String>,
    pub tool_call_count: usize,
}

/// What the turn does after an answer of the provider.
pub enum TurnStep {
    /// Run the tool calls of the answer, recording it as an assistant message
    /// with this text, then ask the provider again; the count of rounds run.
    RunTools { assistant_content: Option<String>, rounds: u64 },
    /// End the turn with this reply.
    Finish(String),
}

/// The rounds of tool calls a turn has run, and how many it may run.
pub struct TurnState {
    pub rounds: u64,
    pub max_rounds: u64,
}

impl TurnState {
    /// A turn that has run no tool calls yet.
    pub fn new(max_rounds: u64) -> (r: Self)
        ensures
            r.rounds == 0,
            r.max_rounds == max_rounds,
    {
        TurnState { rounds: 0, max_rounds }
    }

    /// The rounds never exceed the limit.
    pub open spec fn inv(&self) -> bool {
        self.rounds <= self.max_rounds
    }

    /// After an answer: while it asks for tools and the limit is not reached,
    /// one more round runs; otherwise the turn ends with its text, or with a
    /// fixed apology when it has none.
    pub fn after_reply(&mut self, reply: ProviderReply) -> (r: TurnStep)
        requires
            old(self).inv(),
        ensures
            final(self).inv(),
            final(self).max_rounds == old(self).max_rounds,
            (reply.tool_call_count > 0 && old(self).rounds < old(self).max_rounds) ==> {
                &&& final(self).rounds == old(self).rounds + 1
                &&& r matches TurnStep::RunTools { assistant_content, rounds }
                &&& rounds == final(self).rounds
                &&& match reply.content {
                    Some(c) => if c@.len() == 0 {
                        assistant_content is None
                    } else {
                        assistant_content == Some(c)
                    },
                    None => assistant_content is None,
                }
            },
            !(reply.tool_call_count > 0 && old(self).rounds < old(self).max_rounds) ==> {
                &&& final(self).rounds == old(self).rounds
                &&& r matches TurnStep::Finish(t)
                &&& t@ == match reply.content {
                    Some(c) => c@,
                    None => "I couldn't generate a response."@,
                }
            },
    {
        if reply.tool_call_count > 0 && self.rounds < self.max_rounds {
            self.rounds = self.rounds + 1;
            let assistant_content = match reply.content {
                Some(c) => if c.as_str().is_empty() {
                    None
                } else {
                    Some(c)
                },
                None => None,
            };
            TurnStep::RunTools { assistant_content, rounds: self.rounds }
        } else {
            match reply.content {
                Some(c) => TurnStep::Finish(c),
                None => TurnStep::Finish(lit("I couldn't generate a response.")),
            }
        }
    }
}

/// The reply when the policy refuses the provider call.
pub fn provider_denied_reply() -> (r: String)
    ensures
        r@ == "Provider call denied by policy."@,
{
    lit("Provider call denied by policy.")
}

/// The reply when the provider call fails.
pub fn provider_error_reply(error: &str) -> (r: String)
    ensures
        r@ == "Provider error: "@ + error@,
{
    let mut t = lit("Provider error: ");
    push_str(&mut t, error);
    t
}

/// How a tool call came out, before its result is recorded.
pub enum ToolOutcome {
    /// The policy refused the call.
    Denied,
    /// No channel service was there to run it with.
    NoChannels,
    /// The tool failed with this message.
    Failed(String),
    /// The tool returned this result.
    Done(ToolResult),
}

/// The result recorded for a tool call: the tool's own result, or an error
/// result that names the call and says why.
pub fn tool_result_for(call_id: &str, name: &str, outcome: ToolOutcome) -> (r: ToolResult)
    ensures
        match outcome {
            ToolOutcome::Done(t) => r == t,
            ToolOutcome::Denied => r.tool_call_id@ == call_id@ && r.name@ == name@ && r.is_error
                && r.content@ == "Tool call denied by policy."@,
            ToolOutcome::NoChannels => r.tool_call_id@ == call_id@ && r.name@ == name@ && r.is_error
                && r.content@ == "Error: Channels service not available in agent"@,
            ToolOutcome::Failed(e) => r.tool_call_id@ == call_id@ && r.name@ == name@ && r.is_error
                && r.content@ == "Error: "@ + e@,
        },
{
    match outcome {
        ToolOutcome::Done(t) => t,
        ToolOutcome::Denied => ToolResult {
            tool_call_id: crate::text::owned(call_id),
            name: crate::text::owned(name),
            content: lit("Tool call denied by policy."),
            is_error: true,
        },
        ToolOutcome::NoChannels => ToolResult {
            tool_call_id: crate::text::owned(call_id),
            name: crate::text::owned(name),
            content: lit("Error: Channels service not available in agent"),
            is_error: true,
        },
        ToolOutcome::Failed(e) => {
            let mut content = lit("Error: ");
            push_str(&mut content, e.as_str());
            ToolResult {
                tool_call_id: crate::text::owned(call_id),
                name: crate::text::owned(name),
                content,
                is_error: true,
            }
        },
    }
}

/// The string that a stored message's JSON metadata holds under `key`, as
/// `serde_json` reads it; `None` when the text is not JSON or holds no string
/// there.
pub uninterp spec fn json_string_at(text: Seq<char>, key: Seq<char>) -> Option<Seq<char>>;

/// `serde_json::from_str::<serde_json::Value>`, then `get(key)` and
/// `as_str`.
#[verifier::external_body]
fn json_string_lookup(text: &str, key: &str) -> (r: Option<String>)
    ensures
        match r {
            Some(s) => json_string_at(text@, key@) == Some(s@),
            None => json_string_at(text@, key@) is None,
        },
{
    let value = serde_json::from_str::<serde_json::Value>(text).ok()?;
    value.get(key)?.as_str().map(String::from)
}

/// The string a stored message's metadata holds under `key` (such as
/// `tool_call_id` or `name`); none without metadata.
pub fn metadata_string(metadata: Option<&str>, key: &str) -> (r: Option<String>)
    ensures
        match metadata {
            Some(m) => match r {
                Some(s) => json_string_at(m@, key@) == Some(s@),
                None => json_string_at(m@, key@) is None,
            },
            None => r is None,
        },
{
    match metadata {
        Some(m) => json_string_lookup(m, key),
        None => None,
    }
}

} // verus!
