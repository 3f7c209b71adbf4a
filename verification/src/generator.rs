//! The generation façade: validates the description, takes the
//! deterministic fixture path when one is configured, demands a usable
//! credential before any network work, and turns a received reply into a
//! safety-checked [`GeneratedCommand`].
//!
//! The façade itself performs no I/O: the caller hands it an
//! [`EnvSnapshot`] and, when it answers with a [`GenerationPlan::Dispatch`],
//! drives the remote call and the retries
//! ([`crate::retry`]) and finishes through [`complete_generation`].

use vstd::prelude::*;
use vstd::string::StringExecFns;

pub use crate::classify::CommandConfidence;
use crate::errors::GenerationError;
use crate::parse::{opt_view, parse_completion_content, spec_parse};
use crate::request::{build_request, opt_str_view, spec_base_prompt, spec_with_host, BackendRequest, HostContext};
use crate::safety::{enforce_safety, is_blocked};
use crate::text::{char_len, count_tokens, spec_join, spec_trim, token_count, trim_str, views_of};

verus! {

/// A generated shell command: the executable text, a short explanation,
/// the raw reply for verbose callers, the confidence classification, and
/// deduplicated alternative commands.
#[derive(Debug, Clone, PartialEq, Eq)]
pub struct GeneratedCommand {
    pub cmd: String,
    pub explanation: String,
    pub raw_response: Option<String>,
    pub confidence: CommandConfidence,
    pub alternatives: Vec<String>,
}

/// The environment read once per invocation and passed in explicitly: a
/// fixture reply that substitutes for the backend, the API credential,
/// and the host context (absent when enrichment is disabled).
#[derive(Debug, Clone, PartialEq, Eq)]
pub struct EnvSnapshot {
    pub fake_response: Option<String>,
    pub api_key: Option<String>,
    pub host: Option<HostContext>,
}

/// What the façade decides before any network work: a finished result, or
/// a request the caller must dispatch through the retry orchestrator.
#[derive(Debug)]
pub enum GenerationPlan {
    Finished(Result<GeneratedCommand, GenerationError>),
    Dispatch(BackendRequest),
}

/// A synthetic guidance result: comment-prefixed command, certain, no raw
/// response, no alternatives.
pub open spec fn is_guidance(g: GeneratedCommand, explanation: Seq<char>) -> bool {
    &&& g.cmd@ == "# Please provide more details."@
    &&& g.explanation@ == explanation
    &&& g.raw_response is None
    &&& g.confidence == CommandConfidence::Certain
    &&& g.alternatives@.len() == 0
}

/// How a received reply becomes a final result: parsed, then checked by
/// the safety filter, with the raw reply retained; a missing command or a
/// blocked command each yield their error.
pub open spec fn completes_reply(
    r: Result<GeneratedCommand, GenerationError>,
    content: Seq<char>,
) -> bool {
    match spec_parse(content) {
        None => r == Err::<GeneratedCommand, GenerationError>(GenerationError::MissingCommand),
        Some(d) => {
            if is_blocked(d.command) {
                r == Err::<GeneratedCommand, GenerationError>(GenerationError::SafetyBlocked)
            } else {
                &&& r matches Ok(g)
                &&& r matches Ok(g) ==> {
                    &&& g.cmd@ == d.command
                    &&& g.explanation@ == d.explanation
                    &&& views_of(g.alternatives@) == d.alternatives
                    &&& g.confidence == d.confidence
                    &&& g.raw_response matches Some(x) && x@ == content
                }
            }
        },
    }
}

/// A guidance result is comment-prefixed: whenever the façade answers
/// with synthetic guidance — as it does for every description of fewer
/// than two words — the command opens with `#` and is never meant to run.
pub proof fn lemma_guidance_is_comment_prefixed(g: GeneratedCommand, explanation: Seq<char>)
    requires
        is_guidance(g, explanation),
    ensures
        g.cmd@.len() > 0,
        g.cmd@[0] == '#',
        g.confidence == CommandConfidence::Certain,
        g.raw_response is None,
{
    reveal_strlit("# Please provide more details.");
}

/// No blocked command escapes: whatever reply the backend or the fixture
/// produced, a successful completion's command never matches the safety
/// filter.
pub proof fn lemma_no_blocked_command_escapes(
    r: Result<GeneratedCommand, GenerationError>,
    content: Seq<char>,
    g: GeneratedCommand,
)
    requires
        completes_reply(r, content),
        r == Ok::<GeneratedCommand, GenerationError>(g),
    ensures
        !is_blocked(g.cmd@),
{
}

/// Turn a received raw reply into the final result: parse it, run the
/// safety filter on the resolved command — unconditionally — and keep the
/// raw reply for diagnostics.
pub fn complete_generation(content: &str) -> (r: Result<GeneratedCommand, GenerationError>)
    ensures
        completes_reply(r, content@),
{
    match parse_completion_content(content) {
        Err(e) => Err(e),
        Ok(p) => {
            match enforce_safety(p.command.as_str()) {
                Err(e) => Err(e),
                Ok(_) => Ok(
                    GeneratedCommand {
                        cmd: p.command,
                        explanation: p.explanation,
                        raw_response: Some(String::from_str(content)),
                        confidence: p.confidence,
                        alternatives: p.alternatives,
                    },
                ),
            }
        },
    }
}

/// Decide how to generate a command for `desc` under `env`.
///
/// An empty or one-word description yields guidance, never an error. A
/// configured fixture reply substitutes for the backend and still passes
/// through the safety filter. Otherwise a usable credential is demanded
/// before a request is handed back for dispatch.
pub fn plan_generation(
    desc: &str,
    shell: &str,
    custom_system_prompt: Option<&str>,
    model_override: Option<&str>,
    env: &EnvSnapshot,
) -> (r: GenerationPlan)
    ensures
        spec_trim(desc@).len() == 0 ==> (r matches GenerationPlan::Finished(res) && res matches Ok(
            g,
        ) && is_guidance(g, "Description was empty or ambiguous."@)),
        spec_trim(desc@).len() > 0 && token_count(spec_trim(desc@)) < 2 ==> (r
            matches GenerationPlan::Finished(res) && res matches Ok(g) && is_guidance(
            g,
            "Description appears too short or ambiguous."@,
        )),
        spec_trim(desc@).len() > 0 && token_count(spec_trim(desc@)) >= 2 ==> {
            match env.fake_response {
                Some(fake) => r matches GenerationPlan::Finished(res) && completes_reply(
                    res,
                    fake@,
                ),
                None => {
                    match env.api_key {
                        None => r == GenerationPlan::Finished(
                            Err::<GeneratedCommand, GenerationError>(
                                GenerationError::MissingApiKey,
                            ),
                        ),
                        Some(key) => {
                            if spec_trim(key@).len() == 0 {
                                r == GenerationPlan::Finished(
                                    Err::<GeneratedCommand, GenerationError>(
                                        GenerationError::EmptyApiKey,
                                    ),
                                )
                            } else {
                                &&& r matches GenerationPlan::Dispatch(req)
                                &&& r matches GenerationPlan::Dispatch(req) ==> {
                                    &&& req.system_prompt@ == spec_with_host(
                                        spec_base_prompt(
                                            shell@,
                                            desc@,
                                            opt_str_view(custom_system_prompt),
                                        ),
                                        env.host,
                                    )
                                    &&& req.user_prompt@ == "Description: "@ + desc@
                                    &&& req.model@ == match model_override {
                                        Some(m) => m@,
                                        None => "gpt-3.5-turbo"@,
                                    }
                                    &&& req.temperature_milli == 200
                                }
                            }
                        },
                    }
                },
            }
        },
{
    let t = trim_str(desc);
    if char_len(t) == 0 {
        return GenerationPlan::Finished(
            Ok(
                GeneratedCommand {
                    cmd: String::from_str("# Please provide more details."),
                    explanation: String::from_str("Description was empty or ambiguous."),
                    raw_response: None,
                    confidence: CommandConfidence::Certain,
                    alternatives: Vec::new(),
                },
            ),
        );
    }
    if count_tokens(t) < 2 {
        return GenerationPlan::Finished(
            Ok(
                GeneratedCommand {
                    cmd: String::from_str("# Please provide more details."),
                    explanation: String::from_str("Description appears too short or ambiguous."),
                    raw_response: None,
                    confidence: CommandConfidence::Certain,
                    alternatives: Vec::new(),
                },
            ),
        );
    }
    if let Some(fake) = &env.fake_response {
        return GenerationPlan::Finished(complete_generation(fake.as_str()));
    }
    match &env.api_key {
        None => {
            return GenerationPlan::Finished(Err(GenerationError::MissingApiKey));
        },
        Some(key) => {
            let kt = trim_str(key.as_str());
            if char_len(kt) == 0 {
                return GenerationPlan::Finished(Err(GenerationError::EmptyApiKey));
            }
        },
    }
    GenerationPlan::Dispatch(
        build_request(desc, shell, custom_system_prompt, model_override, &env.host),
    )
}

/// The effective reply content of one successful attempt: the primary
/// text, or — when that is blank — the tool-call argument payloads joined
/// by newlines, if they are non-blank themselves.
pub open spec fn spec_effective_content(
    content: Option<Seq<char>>,
    tool_args: Option<Seq<Seq<char>>>,
) -> Seq<char> {
    let base = match content {
        Some(c) => c,
        None => Seq::empty(),
    };
    if spec_trim(base).len() == 0 && tool_args is Some {
        let fb = spec_join(tool_args->0, "\n"@);
        if spec_trim(fb).len() > 0 {
            fb
        } else {
            base
        }
    } else {
        base
    }
}

/// The view of optional tool-call payloads.
pub open spec fn opt_views(o: Option<Vec<String>>) -> Option<Seq<Seq<char>>> {
    match o {
        Some(v) => Some(views_of(v@)),
        None => None,
    }
}

/// Resolve the content of one reply choice: models sometimes answer only
/// through structured tool calls, so a blank primary text falls back to
/// the concatenated tool-call arguments.
pub fn resolve_reply_content(content: Option<String>, tool_call_args: Option<Vec<String>>) -> (r:
    String)
    ensures
        r@ == spec_effective_content(opt_view(content), opt_views(tool_call_args)),
{
    let base: String = match content {
        Some(c) => c,
        None => String::new(),
    };
    let bt = trim_str(base.as_str());
    if char_len(bt) == 0 {
        if let Some(args) = tool_call_args {
            let fb = crate::text::join_with(&args, "\n");
            let ft = trim_str(fb.as_str());
            if char_len(ft) > 0 {
                return fb;
            }
        }
    }
    base
}

} // verus!
