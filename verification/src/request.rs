//! The request builder: assembles the system and user messages sent to the
//! chat backend, grounding the system prompt in the host's context unless
//! that enrichment is disabled.

use vstd::prelude::*;
use vstd::string::StringExecFns;

verus! {

/// The host details appended to the system prompt: operating system, CPU
/// architecture, and the active shell.
#[derive(Debug, Clone, PartialEq, Eq)]
pub struct HostContext {
    pub os: String,
    pub arch: String,
    pub shell: String,
}

/// Everything one backend attempt needs: the model, the two message
/// texts, and a deterministic-leaning temperature in thousandths.
#[derive(Debug, Clone, PartialEq, Eq)]
pub struct BackendRequest {
    pub model: String,
    pub system_prompt: String,
    pub user_prompt: String,
    pub temperature_milli: u32,
}

/// The chat model used when the caller overrides nothing.
pub fn default_model() -> (r: &'static str)
    ensures
        r@ == "gpt-3.5-turbo"@,
{
    "gpt-3.5-turbo"
}

/// The default instructional template: names the target shell, fixes the
/// `Command:`/`Explanation:` reply shape (or a `Commands:` list), forbids
/// fabricated output, prefers real inspection commands, and requires
/// guidance-only replies to start with `#`.
pub open spec fn spec_default_prompt(shell: Seq<char>, desc: Seq<char>) -> Seq<char> {
    "You are an expert "@ + shell + " assistant.\nTask: "@ + desc
        + "\nRequirements:\n1. When confident, reply using:\n   Command: <single "@ + shell
        + " command>\n   Explanation: <short justification>\n2. When unsure or multiple safe approaches exist, reply using:\n   Commands:\n   - <command option 1>\n   - <command option 2>\n   Explanation: <how to choose / warnings>\n3. Never fabricate output (avoid echoing statements unless the user explicitly wants a literal message).\n4. Prefer real inspection commands (e.g., hostname, uname -a, sysctl, system_profiler) for environment questions.\n5. Guidance-only responses must start with '#'."@
}

/// The system prompt before host enrichment: the caller's override when
/// given, the default template otherwise.
pub open spec fn spec_base_prompt(
    shell: Seq<char>,
    desc: Seq<char>,
    custom: Option<Seq<char>>,
) -> Seq<char> {
    match custom {
        Some(p) => p,
        None => spec_default_prompt(shell, desc),
    }
}

/// A prompt with the host context appended, unless enrichment is off.
pub open spec fn spec_with_host(prompt: Seq<char>, host: Option<HostContext>) -> Seq<char> {
    match host {
        None => prompt,
        Some(h) => {
            prompt + "\n\nHost context: os="@ + h.os@ + ", arch="@ + h.arch@ + ", shell="@
                + h.shell@ + "."@
        },
    }
}

/// Append the host context — OS, architecture, shell — to a prompt, unless
/// enrichment is disabled (`host` is absent).
pub fn append_machine_context(prompt: &str, host: &Option<HostContext>) -> (r: String)
    ensures
        r@ == spec_with_host(prompt@, *host),
{
    match host {
        None => String::from_str(prompt),
        Some(h) => {
            let mut out = String::from_str(prompt);
            out.append("\n\nHost context: os=");
            out.append(h.os.as_str());
            out.append(", arch=");
            out.append(h.arch.as_str());
            out.append(", shell=");
            out.append(h.shell.as_str());
            out.append(".");
            out
        },
    }
}

/// The view of an optional borrowed string.
pub open spec fn opt_str_view(o: Option<&str>) -> Option<Seq<char>> {
    match o {
        Some(s) => Some(s@),
        None => None,
    }
}

/// Build the outbound request for one attempt: system message (override or
/// default template, then host context), `Description:` user message, the
/// chosen model, and a fixed low temperature.
pub fn build_request(
    desc: &str,
    shell: &str,
    custom_system_prompt: Option<&str>,
    model_override: Option<&str>,
    host: &Option<HostContext>,
) -> (r: BackendRequest)
    ensures
        r.system_prompt@ == spec_with_host(
            spec_base_prompt(shell@, desc@, opt_str_view(custom_system_prompt)),
            *host,
        ),
        r.user_prompt@ == "Description: "@ + desc@,
        r.model@ == match model_override {
            Some(m) => m@,
            None => "gpt-3.5-turbo"@,
        },
        r.temperature_milli == 200,
{
    let base: String = match custom_system_prompt {
        Some(p) => String::from_str(p),
        None => {
            let mut out = String::from_str("You are an expert ");
            out.append(shell);
            out.append(" assistant.\nTask: ");
            out.append(desc);
            out.append("\nRequirements:\n1. When confident, reply using:\n   Command: <single ");
            out.append(shell);
            out.append(
                " command>\n   Explanation: <short justification>\n2. When unsure or multiple safe approaches exist, reply using:\n   Commands:\n   - <command option 1>\n   - <command option 2>\n   Explanation: <how to choose / warnings>\n3. Never fabricate output (avoid echoing statements unless the user explicitly wants a literal message).\n4. Prefer real inspection commands (e.g., hostname, uname -a, sysctl, system_profiler) for environment questions.\n5. Guidance-only responses must start with '#'.",
            );
            out
        },
    };
    let system_prompt = append_machine_context(base.as_str(), host);
    let mut user_prompt = String::from_str("Description: ");
    user_prompt.append(desc);
    let model = match model_override {
        Some(m) => String::from_str(m),
        None => String::from_str(default_model()),
    };
    BackendRequest { model, system_prompt, user_prompt, temperature_milli: 200 }
}

} // verus!
