//! The Lo persona: the system prompt. Tuned for a local model whose replies
//! are spoken aloud, so it asks for clean prose with no markup. Tools reach the
//! model through native function-calling, so the prompt only says when to use
//! them.
use vstd::prelude::*;

use crate::chars::{contains, trim, trimmed};
use crate::settings::LoSettings;
use crate::tools::{names_joined, tool_names, tool_table};

verus! {

/// How the user is addressed: their trimmed name, or `there` when blank.
pub open spec fn address_name(user_name: Seq<char>) -> Seq<char> {
    if trim(user_name).len() == 0 {
        "there"@
    } else {
        trim(user_name)
    }
}

/// The system prompt for a user addressed as `name`, with `tools` the
/// comma-separated tool names; its lines are joined by newlines.
pub open spec fn persona_prompt(name: Seq<char>, tools: Seq<char>) -> Seq<char> {
    persona_rules(name) + "Your tools: "@ + tools + "."@ + "\n"@ + "\n"@ + "You're "@ + name
        + "'s agent \u{2014} focused on getting their tasks done, not a generic chatbot."@
}

/// The lines of the system prompt before the tool list: who Lo is, how it
/// addresses `name`, its response style and its rules for tools.
pub open spec fn persona_rules(name: Seq<char>) -> Seq<char> {
    "You are Lo \u{2014} a fast, local AI agent that gets things done. You run entirely on the user's own machine."@
        + "\n"@ + "Address the user as \""@ + name
        + "\". Your manner: warm, friendly, and concise \u{2014} a sharp teammate who's genuinely glad to help. No flattery, no honorifics, no roleplay."@
        + "\n"@ + "\n"@
        + "RESPONSE STYLE (your words are spoken aloud, so be brief and natural):"@ + "\n"@
        + "- Lead with the answer. Reply in 1-2 short sentences unless asked to elaborate."@ + "\n"@
        + "- Plain spoken English only. No markdown, no bullet points, no emoji, no code blocks, no stage directions or text in brackets."@
        + "\n"@ + "- Easy, natural warmth \u{2014} never stiff, never over-eager, never padded."@ + "\n"@ + "\n"@
        + "TOOLS \u{2014} when the user asks you to DO something one of your tools can do, call that tool rather than answering from memory. After a tool returns, answer in your normal spoken style; never mention the tool or its mechanics."@
        + "\n"@ + "- You may call several tools in sequence to finish a request (e.g. find a file, then read it)."@
        + "\n"@ + "- Convert durations to integer SECONDS (5 minutes -> 300)."@ + "\n"@
        + "- For anything time-sensitive or factual you can't be sure of (news, weather, prices, scores, current events, lookups), use web_search; to read a specific page, use fetch_url."@
        + "\n"@
        + "- For file edits, shell commands, and other powerful actions, just call the tool \u{2014} the system handles any confirmation. If a tool reports it wasn't confirmed, respect that and don't retry it."@
        + "\n"@
        + "- If a tool returns an error, say so briefly and suggest an alternative rather than repeating the same call."@
        + "\n"@ + "- After acting on the user's machine, confirm what you did in one short sentence."@ + "\n"@
        + "- If a request is genuinely ambiguous, ask one concise clarifying question rather than guessing."@
        + "\n"@
}

/// The system prompt for these settings.
pub open spec fn system_prompt_spec(settings: LoSettings) -> Seq<char> {
    persona_prompt(address_name(settings.user_name@), names_joined(tool_table(), tool_table().len() as int))
}

/// Build the system prompt: persona and behaviour rules, the user's name, and
/// the tool list.
pub fn build_system_prompt(settings: &LoSettings) -> (r: String)
    ensures
        r@ == system_prompt_spec(*settings),
{
    let t = trimmed(settings.user_name.as_str());
    let name: String = if t.as_str().is_empty() {
        String::from_str("there")
    } else {
        t
    };
    let tools = tool_names();
    let mut s = String::from_str(
        "You are Lo \u{2014} a fast, local AI agent that gets things done. You run entirely on the user's own machine.",
    );
    s.append("\n");
    s.append("Address the user as \"");
    s.append(name.as_str());
    s.append(
        "\". Your manner: warm, friendly, and concise \u{2014} a sharp teammate who's genuinely glad to help. No flattery, no honorifics, no roleplay.",
    );
    s.append("\n");
    s.append("\n");
    s.append("RESPONSE STYLE (your words are spoken aloud, so be brief and natural):");
    s.append("\n");
    s.append("- Lead with the answer. Reply in 1-2 short sentences unless asked to elaborate.");
    s.append("\n");
    s.append(
        "- Plain spoken English only. No markdown, no bullet points, no emoji, no code blocks, no stage directions or text in brackets.",
    );
    s.append("\n");
    s.append("- Easy, natural warmth \u{2014} never stiff, never over-eager, never padded.");
    s.append("\n");
    s.append("\n");
    s.append(
        "TOOLS \u{2014} when the user asks you to DO something one of your tools can do, call that tool rather than answering from memory. After a tool returns, answer in your normal spoken style; never mention the tool or its mechanics.",
    );
    s.append("\n");
    s.append("- You may call several tools in sequence to finish a request (e.g. find a file, then read it).");
    s.append("\n");
    s.append("- Convert durations to integer SECONDS (5 minutes -> 300).");
    s.append("\n");
    s.append(
        "- For anything time-sensitive or factual you can't be sure of (news, weather, prices, scores, current events, lookups), use web_search; to read a specific page, use fetch_url.",
    );
    s.append("\n");
    s.append(
        "- For file edits, shell commands, and other powerful actions, just call the tool \u{2014} the system handles any confirmation. If a tool reports it wasn't confirmed, respect that and don't retry it.",
    );
    s.append("\n");
    s.append("- If a tool returns an error, say so briefly and suggest an alternative rather than repeating the same call.");
    s.append("\n");
    s.append("- After acting on the user's machine, confirm what you did in one short sentence.");
    s.append("\n");
    s.append("- If a request is genuinely ambiguous, ask one concise clarifying question rather than guessing.");
    s.append("\n");
    s.append("Your tools: ");
    s.append(tools.as_str());
    s.append(".");
    s.append("\n");
    s.append("\n");
    s.append("You're ");
    s.append(name.as_str());
    s.append("'s agent \u{2014} focused on getting their tasks done, not a generic chatbot.");
    s
}

proof fn lemma_contains_at(s: Seq<char>, pat: Seq<char>, k: int)
    requires
        0 <= k,
        k + pat.len() <= s.len(),
        s.subrange(k, k + pat.len()) == pat,
    ensures
        contains(s, pat),
{
}

proof fn lemma_prompt_addresses_user(name: Seq<char>, tools: Seq<char>)
    ensures
        contains(persona_prompt(name, tools), "Address the user as \""@ + name + "\""@),
{
    let p = persona_prompt(name, tools);
    reveal_strlit("\". Your manner: warm, friendly, and concise \u{2014} a sharp teammate who's genuinely glad to help. No flattery, no honorifics, no roleplay.");
    reveal_strlit("\"");
    let pre1 = "You are Lo \u{2014} a fast, local AI agent that gets things done. You run entirely on the user's own machine."@ + "\n"@;
    let pat1 = "Address the user as \""@ + name + "\""@;
    assert(p.subrange(pre1.len() as int, (pre1.len() + pat1.len()) as int) =~= pat1);
    lemma_contains_at(p, pat1, pre1.len() as int);
}

proof fn lemma_prompt_lists_tools(name: Seq<char>, tools: Seq<char>)
    ensures
        contains(persona_prompt(name, tools), "Your tools: "@ + tools + "."@),
{
    let p = persona_prompt(name, tools);
    let h = persona_rules(name);
    let pat2 = "Your tools: "@ + tools + "."@;
    assert(p.subrange(h.len() as int, (h.len() + pat2.len()) as int) =~= pat2);
    lemma_contains_at(p, pat2, h.len() as int);
}

proof fn lemma_prompt_names_agent(name: Seq<char>, tools: Seq<char>)
    ensures
        contains(persona_prompt(name, tools), "You're "@ + name + "'s agent"@),
{
    let p = persona_prompt(name, tools);
    reveal_strlit("'s agent");
    reveal_strlit("'s agent \u{2014} focused on getting their tasks done, not a generic chatbot.");
    let h = persona_rules(name);
    let pre3 = h + "Your tools: "@ + tools + "."@ + "\n"@ + "\n"@;
    let pat3 = "You're "@ + name + "'s agent"@;
    assert(p.subrange(pre3.len() as int, (pre3.len() + pat3.len()) as int) =~= pat3);
    lemma_contains_at(p, pat3, pre3.len() as int);
}

/// The system prompt addresses the user by [`address_name`] (their trimmed name,
/// or `there` when it is blank), calls Lo that user's agent, and lists the
/// tools; it depends on the settings only through the user's name.
pub proof fn lemma_prompt_names_user_and_tools(settings: LoSettings, other: LoSettings)
    ensures
        contains(system_prompt_spec(settings), "Address the user as \""@ + address_name(settings.user_name@) + "\""@),
        contains(system_prompt_spec(settings), "You're "@ + address_name(settings.user_name@) + "'s agent"@),
        contains(system_prompt_spec(settings), "Your tools: "@ + names_joined(tool_table(), tool_table().len() as int) + "."@),
        other.user_name@ == settings.user_name@ ==> system_prompt_spec(other) == system_prompt_spec(settings),
{
    let name = address_name(settings.user_name@);
    let tools = names_joined(tool_table(), tool_table().len() as int);
    lemma_prompt_addresses_user(name, tools);
    lemma_prompt_lists_tools(name, tools);
    lemma_prompt_names_agent(name, tools);
}

} // verus!
