//! The response parser: a tolerant, line-oriented text grammar that
//! recovers a command, an explanation and alternative commands from the
//! free-form reply of the chat backend.
//!
//! The grammar is modelled as a spec-level state machine ([`PState`],
//! [`pstep`]) folded over the reply's lines, followed by a resolution step
//! ([`spec_resolve`]) that picks the command candidate, synthesises a
//! missing explanation, coerces the candidate
//! ([`crate::classify::spec_coerce`]) and deduplicates the alternatives.

use vstd::prelude::*;
use vstd::string::StrSliceExecFns;
use vstd::string::StringExecFns;

use crate::classify::{
    spec_coerce, spec_looks_like_command, coerce_command, looks_like_command, CommandConfidence,
};
use crate::errors::GenerationError;
use crate::text::{
    char_len, eq_str_ci, find_ch, find_char_from, is_ws, is_ws_char, join_with, lemma_find_ch,
    seq_eq_ci, spec_join, spec_lines, spec_trim, split_lines, starts_with, starts_with_ci,
    starts_with_str, starts_with_str_ci, trim_str, views_of,
};

verus! {

/// The parser's local state while walking the reply's lines.
#[verifier::ext_equal]
pub ghost struct PState {
    /// The command candidate, once a `Command:` line or a closed code
    /// block has supplied one.
    pub command: Option<Seq<char>>,
    /// The explanation text captured from an `Explanation:` line.
    pub explanation: Option<Seq<char>>,
    /// The full `Explanation:` line, kept as a last-resort command
    /// fallback.
    pub explanation_line: Option<Seq<char>>,
    /// Non-empty lines that belong to no other category.
    pub body: Seq<Seq<char>>,
    /// Lines buffered inside an open code fence.
    pub code_buf: Seq<Seq<char>>,
    /// Whether a code fence is open.
    pub in_code: bool,
    /// Whether a `Commands:` list is being collected.
    pub listing: bool,
    /// Alternative commands collected in list mode.
    pub alts: Seq<Seq<char>>,
}

/// The state before any line has been read.
pub open spec fn init_state() -> PState {
    PState {
        command: None,
        explanation: None,
        explanation_line: None,
        body: Seq::empty(),
        code_buf: Seq::empty(),
        in_code: false,
        listing: false,
        alts: Seq::empty(),
    }
}

/// The text after a case-insensitive `prefix` at the head of `t`, trimmed;
/// nothing when the prefix is absent or nothing follows it.
pub open spec fn after_ci_prefix(t: Seq<char>, prefix: Seq<char>) -> Option<Seq<char>> {
    if starts_with_ci(t, prefix) {
        let v = spec_trim(t.skip(prefix.len() as int));
        if v.len() > 0 {
            Some(v)
        } else {
            None
        }
    } else {
        None
    }
}

/// ASCII decimal digits.
pub open spec fn is_digit_char(c: char) -> bool {
    48 <= c as u32 && c as u32 <= 57
}

/// Length of the leading run of ASCII digits.
pub open spec fn digits_len(s: Seq<char>) -> int
    decreases s.len(),
{
    if s.len() == 0 {
        0
    } else if is_digit_char(s[0]) {
        1 + digits_len(s.drop_first())
    } else {
        0
    }
}

/// A list line's command candidate: either `- <text>` or
/// `<N>. <text>` / `<N>) <text>`, whose extracted text must look like a
/// command.
pub open spec fn spec_list_command(line: Seq<char>) -> Option<Seq<char>> {
    let t = spec_trim(line);
    if t.len() == 0 {
        None
    } else if starts_with(t, "- "@) && spec_looks_like_command(spec_trim(t.skip(2))) {
        Some(spec_trim(t.skip(2)))
    } else {
        let d = digits_len(t);
        if d >= 1 && d < t.len() && (t[d] == ')' || t[d] == '.') && t.len() - d - 1 >= 2
            && is_ws_char(t[d + 1]) && spec_looks_like_command(spec_trim(t.skip(d + 1))) {
            Some(spec_trim(t.skip(d + 1)))
        } else {
            None
        }
    }
}

/// One step of the parser over a raw line.
pub open spec fn pstep(st: PState, raw_line: Seq<char>) -> PState {
    let t = spec_trim(raw_line);
    if starts_with(t, "```"@) {
        if st.in_code {
            if st.code_buf.len() > 0 {
                let joined = spec_join(st.code_buf, "\n"@);
                if st.command is None {
                    PState { in_code: false, code_buf: Seq::empty(), command: Some(joined), ..st }
                } else {
                    PState {
                        in_code: false,
                        code_buf: Seq::empty(),
                        body: st.body.push(joined),
                        ..st
                    }
                }
            } else {
                PState { in_code: false, ..st }
            }
        } else {
            PState { in_code: true, ..st }
        }
    } else if st.in_code {
        PState { code_buf: st.code_buf.push(t), ..st }
    } else if t.len() == 0 {
        PState { listing: false, ..st }
    } else if after_ci_prefix(t, "command:"@) is Some {
        PState { command: Some(after_ci_prefix(t, "command:"@)->Some_0), ..st }
    } else if after_ci_prefix(t, "explanation:"@) is Some {
        PState {
            explanation_line: Some(t),
            explanation: Some(after_ci_prefix(t, "explanation:"@)->Some_0),
            listing: false,
            ..st
        }
    } else if seq_eq_ci(t, "commands:"@) {
        PState { listing: true, ..st }
    } else if st.listing {
        match spec_list_command(t) {
            Some(c) => PState { alts: st.alts.push(c), ..st },
            None => st,
        }
    } else {
        PState { body: st.body.push(t), ..st }
    }
}

/// The parser state after the first `n` lines.
pub open spec fn run_prefix(lines: Seq<Seq<char>>, n: int) -> PState
    decreases n,
{
    if n <= 0 {
        init_state()
    } else {
        pstep(run_prefix(lines, n - 1), lines[n - 1])
    }
}

/// Alternatives kept by the case-insensitive deduplication: an alternative
/// is dropped when it equals the primary command, claims an already-seen
/// lower-case key, or fails the command-likelihood check; a dropped
/// non-command still claims its key.
pub open spec fn dedup_from(alts: Seq<Seq<char>>, cmd: Seq<char>, seen: Seq<Seq<char>>) -> Seq<
    Seq<char>,
>
    decreases alts.len(),
{
    if alts.len() == 0 {
        Seq::empty()
    } else {
        let a = alts[0];
        let rest = alts.drop_first();
        if !seq_eq_ci(a, cmd) {
            let fresh = forall|k: int| 0 <= k < seen.len() ==> !seq_eq_ci(a, seen[k]);
            if fresh && spec_looks_like_command(a) {
                seq![a] + dedup_from(rest, cmd, seen.push(a))
            } else {
                dedup_from(rest, cmd, seen.push(a))
            }
        } else {
            dedup_from(rest, cmd, seen)
        }
    }
}

/// The deduplicated alternatives, measured against the resolved command.
pub open spec fn spec_dedup(alts: Seq<Seq<char>>, cmd: Seq<char>) -> Seq<Seq<char>> {
    dedup_from(alts, cmd, Seq::empty())
}

/// A fully resolved draft: command, explanation, alternatives and
/// confidence.
#[verifier::ext_equal]
pub ghost struct SpecDraft {
    pub command: Seq<char>,
    pub explanation: Seq<char>,
    pub alternatives: Seq<Seq<char>>,
    pub confidence: CommandConfidence,
}

/// Resolution after the line pass: an unclosed code block may still supply
/// the command; otherwise the first body line is promoted, then the raw
/// `Explanation:` line; with no candidate at all, parsing fails. A missing
/// explanation is synthesised from the remaining body lines.
pub open spec fn spec_resolve(st: PState, raw: Seq<char>) -> Option<SpecDraft> {
    let c0 = if st.command is Some {
        st.command
    } else if st.code_buf.len() > 0 {
        Some(spec_join(st.code_buf, "\n"@))
    } else {
        None
    };
    let c1 = if c0 is Some {
        c0
    } else if st.body.len() > 0 {
        Some(st.body[0])
    } else if st.explanation_line is Some {
        st.explanation_line
    } else {
        None
    };
    let body1 = if c0 is None && st.body.len() > 0 {
        st.body.drop_first()
    } else {
        st.body
    };
    if c1 is None {
        None
    } else {
        let expl = if st.explanation is Some {
            st.explanation->0
        } else {
            spec_join(body1, " "@)
        };
        let cmd = spec_coerce(c1->0, raw).0;
        let conf = spec_coerce(c1->0, raw).1;
        Some(
            SpecDraft {
                command: cmd,
                explanation: expl,
                alternatives: spec_dedup(st.alts, cmd),
                confidence: conf,
            },
        )
    }
}

/// What [`parse_completion_content`] yields for a raw reply, if anything.
pub open spec fn spec_parse(raw: Seq<char>) -> Option<SpecDraft> {
    let lines = spec_lines(raw);
    spec_resolve(run_prefix(lines, lines.len() as int), raw)
}

/// The structured draft parsed from one raw reply.
#[derive(Debug, Clone, PartialEq, Eq)]
pub struct ParsedResponse {
    pub command: String,
    pub explanation: String,
    pub alternatives: Vec<String>,
    pub confidence: CommandConfidence,
}

/// The view of an optional owned string.
pub open spec fn opt_view(o: Option<String>) -> Option<Seq<char>> {
    match o {
        Some(s) => Some(s@),
        None => None,
    }
}

/// What [`extract_after_prefix`] yields: when `lower` opens with
/// `prefix`, the trimmed text after the first colon of `original`, if
/// both the colon and the text exist.
pub open spec fn spec_extract_after_prefix(
    lower: Seq<char>,
    original: Seq<char>,
    prefix: Seq<char>,
) -> Option<Seq<char>> {
    if starts_with(lower, prefix) {
        let c = find_ch(original, ':');
        if c == original.len() {
            None
        } else {
            let v = spec_trim(original.skip(c + 1));
            if v.len() > 0 {
                Some(v)
            } else {
                None
            }
        }
    } else {
        None
    }
}

/// The marker line's value: `lower` is the line already lower-cased by
/// the caller, `original` the line itself; when the former opens with
/// `prefix`, the text after the first colon of the latter is extracted
/// and trimmed, and kept only when non-empty.
pub fn extract_after_prefix(lower: &str, original: &str, prefix: &str) -> (r: Option<String>)
    ensures
        match r {
            Some(x) => spec_extract_after_prefix(lower@, original@, prefix@) == Some(x@),
            None => spec_extract_after_prefix(lower@, original@, prefix@) is None,
        },
{
    if !starts_with_str(lower, prefix) {
        return None;
    }
    let n = char_len(original);
    let c = find_char_from(original, ':', 0);
    proof {
        lemma_find_ch(original@, ':', c as int);
    }
    if c == n {
        return None;
    }
    let tail = original.substring_char(c + 1, n);
    proof {
        assert(tail@ =~= original@.skip(c + 1));
    }
    let v = trim_str(tail);
    if char_len(v) > 0 {
        Some(String::from_str(v))
    } else {
        None
    }
}

/// The text after a case-insensitive prefix at the head of `line`,
/// trimmed, as [`after_ci_prefix`] describes.
fn after_prefix_ci(line: &str, prefix: &str) -> (r: Option<String>)
    ensures
        match r {
            Some(x) => after_ci_prefix(line@, prefix@) == Some(x@),
            None => after_ci_prefix(line@, prefix@) is None,
        },
{
    if starts_with_str_ci(line, prefix) {
        let n = char_len(line);
        let m = char_len(prefix);
        let tail = line.substring_char(m, n);
        proof {
            assert(tail@ =~= line@.skip(m as int));
        }
        let v = trim_str(tail);
        if char_len(v) > 0 {
            Some(String::from_str(v))
        } else {
            None
        }
    } else {
        None
    }
}

/// True of `c` exactly when it is an ASCII digit.
fn is_digit(c: char) -> (r: bool)
    ensures
        r == is_digit_char(c),
{
    let u = c as u32;
    48 <= u && u <= 57
}

/// Length of the leading ASCII-digit run of `t`.
fn digits_len_exec(t: &str) -> (d: usize)
    ensures
        d == digits_len(t@),
{
    let n = t.unicode_len();
    let mut d: usize = 0;
    while d < n && is_digit(t.get_char(d))
        invariant
            0 <= d <= n,
            n == t@.len(),
            forall|k: int| 0 <= k < d ==> is_digit_char(t@[k]),
        decreases n - d,
    {
        d = d + 1;
    }
    proof {
        lemma_digits_len(t@, d as int);
    }
    d
}

proof fn lemma_digits_len(s: Seq<char>, j: int)
    requires
        0 <= j <= s.len(),
        forall|k: int| 0 <= k < j ==> is_digit_char(s[k]),
        j < s.len() ==> !is_digit_char(s[j]),
    ensures
        digits_len(s) == j,
    decreases j,
{
    if s.len() == 0 || j == 0 {
    } else {
        let t = s.drop_first();
        assert(forall|k: int| 0 <= k < j - 1 ==> #[trigger] t[k] == s[k + 1]);
        lemma_digits_len(t, j - 1);
    }
}

/// Parse one line of a `Commands:` list into an alternative-command
/// candidate, as [`spec_list_command`] describes.
pub fn parse_list_command(line: &str) -> (r: Option<String>)
    ensures
        match r {
            Some(x) => spec_list_command(line@) == Some(x@),
            None => spec_list_command(line@) is None,
        },
{
    let t = trim_str(line);
    let n = char_len(t);
    if n == 0 {
        return None;
    }
    if starts_with_str(t, "- ") {
        proof {
            reveal_strlit("- ");
        }
        let c = trim_str(t.substring_char(2, n));
        proof {
            assert(t@.subrange(2, n as int) =~= t@.skip(2));
        }
        if looks_like_command(c) {
            return Some(String::from_str(c));
        }
    }
    let d = digits_len_exec(t);
    if d >= 1 && d < n && (t.get_char(d) == ')' || t.get_char(d) == '.') && n - d - 1 >= 2
        && is_ws(t.get_char(d + 1)) {
        let c = trim_str(t.substring_char(d + 1, n));
        proof {
            assert(t@.subrange(d + 1, n as int) =~= t@.skip(d + 1));
        }
        if looks_like_command(c) {
            return Some(String::from_str(c));
        }
    }
    None
}

/// Whether `alt` is ASCII-case-insensitively distinct from every string
/// in `claimed`.
fn is_fresh(claimed: &Vec<String>, alt: &str) -> (r: bool)
    ensures
        r == (forall|k: int| 0 <= k < claimed@.len() ==> !seq_eq_ci(alt@, claimed@[k]@)),
{
    let mut k: usize = 0;
    while k < claimed.len()
        invariant
            0 <= k <= claimed@.len(),
            forall|j: int| 0 <= j < k ==> !seq_eq_ci(alt@, claimed@[j]@),
        decreases claimed@.len() - k,
    {
        if eq_str_ci(alt, claimed[k].as_str()) {
            return false;
        }
        k = k + 1;
    }
    true
}

/// Deduplicate the collected alternatives against the resolved primary
/// command, as [`spec_dedup`] describes: case-insensitive, dropping
/// duplicates of the command itself and anything that does not look like
/// a command.
pub fn dedup_alternatives(alts: &Vec<String>, cmd: &str) -> (r: Vec<String>)
    ensures
        views_of(r@) == spec_dedup(views_of(alts@), cmd@),
{
    let ghost aviews = views_of(alts@);
    let mut r: Vec<String> = Vec::new();
    let mut claimed: Vec<String> = Vec::new();
    let mut i: usize = 0;
    proof {
        assert(aviews.skip(0) =~~= aviews);
        assert(views_of(r@) =~~= Seq::<Seq<char>>::empty());
        assert(views_of(claimed@) =~~= Seq::<Seq<char>>::empty());
    }
    while i < alts.len()
        invariant
            0 <= i <= alts@.len(),
            aviews == views_of(alts@),
            spec_dedup(aviews, cmd@) =~~= views_of(r@) + dedup_from(
                aviews.skip(i as int),
                cmd@,
                views_of(claimed@),
            ),
        decreases alts@.len() - i,
    {
        let ghost rest = aviews.skip(i as int);
        let ghost cviews = views_of(claimed@);
        proof {
            assert(rest[0] == aviews[i as int]);
            assert(rest.drop_first() =~~= aviews.skip(i + 1));
            assert(forall|k: int| 0 <= k < cviews.len() ==> cviews[k] == claimed@[k]@);
        }
        let a = &alts[i];
        proof {
            assert(a@ == rest[0]);
        }
        if !eq_str_ci(a.as_str(), cmd) {
            let fresh = is_fresh(&claimed, a.as_str());
            let ghost old_r = views_of(r@);
            proof {
                if fresh {
                    assert forall|k: int| 0 <= k < cviews.len() implies !seq_eq_ci(
                        rest[0],
                        cviews[k],
                    ) by {
                        assert(cviews[k] == claimed@[k]@);
                        assert(!seq_eq_ci(a@, claimed@[k]@));
                    }
                } else {
                    let k0 = choose|k: int|
                        !(0 <= k < claimed@.len() ==> !seq_eq_ci(a@, claimed@[k]@));
                    assert(seq_eq_ci(rest[0], cviews[k0]));
                }
                assert(fresh == (forall|k: int|
                    0 <= k < cviews.len() ==> !seq_eq_ci(rest[0], cviews[k])));
            }
            claimed.push(a.clone());
            proof {
                assert(views_of(claimed@) =~~= cviews.push(a@));
            }
            if fresh && looks_like_command(a.as_str()) {
                r.push(a.clone());
                proof {
                    assert(dedup_from(rest, cmd@, cviews) =~~= seq![rest[0]] + dedup_from(
                        rest.drop_first(),
                        cmd@,
                        cviews.push(rest[0]),
                    ));
                    assert(views_of(r@) =~~= old_r.push(a@));
                    assert(old_r + (seq![a@] + dedup_from(
                        aviews.skip(i + 1),
                        cmd@,
                        cviews.push(a@),
                    )) =~~= old_r.push(a@) + dedup_from(aviews.skip(i + 1), cmd@, cviews.push(a@)));
                }
            } else {
                proof {
                    assert(dedup_from(rest, cmd@, cviews) =~~= dedup_from(
                        rest.drop_first(),
                        cmd@,
                        cviews.push(rest[0]),
                    ));
                }
            }
        } else {
            proof {
                assert(dedup_from(rest, cmd@, cviews) =~~= dedup_from(
                    rest.drop_first(),
                    cmd@,
                    cviews,
                ));
            }
        }
        i = i + 1;
    }
    proof {
        assert(aviews.skip(aviews.len() as int) =~~= Seq::<Seq<char>>::empty());
        assert(views_of(r@) =~~= spec_dedup(aviews, cmd@));
    }
    r
}

/// Parse the command, explanation and alternatives out of a raw reply.
/// Fails — with a missing-command error — exactly when the reply holds no
/// usable content of any kind, as [`spec_parse`] describes.
pub fn parse_completion_content(raw: &str) -> (r: Result<ParsedResponse, GenerationError>)
    ensures
        (r is Ok) == (spec_parse(raw@) is Some),
        r matches Ok(p) ==> ({
            let d = spec_parse(raw@)->Some_0;
            &&& p.command@ == d.command
            &&& p.explanation@ == d.explanation
            &&& views_of(p.alternatives@) == d.alternatives
            &&& p.confidence == d.confidence
        }),
        r matches Err(e) ==> e == GenerationError::MissingCommand,
{
    let lines = split_lines(raw);
    let ghost lviews = spec_lines(raw@);
    let mut command: Option<String> = None;
    let mut explanation: Option<String> = None;
    let mut explanation_line: Option<String> = None;
    let mut body: Vec<String> = Vec::new();
    let mut code_buf: Vec<String> = Vec::new();
    let mut in_code = false;
    let mut listing = false;
    let mut alts: Vec<String> = Vec::new();
    let mut i: usize = 0;
    while i < lines.len()
        invariant
            0 <= i <= lines@.len(),
            lviews == spec_lines(raw@),
            lines@.len() == lviews.len(),
            forall|k: int| 0 <= k < lines@.len() ==> #[trigger] lines@[k]@ == lviews[k],
            opt_view(command) == run_prefix(lviews, i as int).command,
            opt_view(explanation) == run_prefix(lviews, i as int).explanation,
            opt_view(explanation_line) == run_prefix(lviews, i as int).explanation_line,
            views_of(body@) == run_prefix(lviews, i as int).body,
            views_of(code_buf@) == run_prefix(lviews, i as int).code_buf,
            in_code == run_prefix(lviews, i as int).in_code,
            listing == run_prefix(lviews, i as int).listing,
            views_of(alts@) == run_prefix(lviews, i as int).alts,
        decreases lines@.len() - i,
    {
        let ghost st = run_prefix(lviews, i as int);
        let ghost st2 = run_prefix(lviews, i + 1);
        proof {
            assert(st2 == pstep(st, lviews[i as int]));
        }
        let line: &str = lines[i];
        let t = trim_str(line);
        let ghost old_body = views_of(body@);
        let ghost old_code = views_of(code_buf@);
        let ghost old_alts = views_of(alts@);
        if starts_with_str(t, "```") {
            if in_code {
                in_code = false;
                if code_buf.len() > 0 {
                    let joined = join_with(&code_buf, "\n");
                    if command.is_none() {
                        command = Some(joined);
                    } else {
                        body.push(joined);
                        proof {
                            assert(views_of(body@) =~~= old_body.push(
                                spec_join(old_code, "\n"@),
                            ));
                        }
                    }
                    code_buf = Vec::new();
                }
            } else {
                in_code = true;
            }
        } else if in_code {
            code_buf.push(String::from_str(t));
            proof {
                assert(views_of(code_buf@) =~~= old_code.push(t@));
            }
        } else if char_len(t) == 0 {
            listing = false;
        } else if let Some(v) = after_prefix_ci(t, "command:") {
            command = Some(v);
        } else if let Some(v) = after_prefix_ci(t, "explanation:") {
            explanation_line = Some(String::from_str(t));
            explanation = Some(v);
            listing = false;
        } else if eq_str_ci(t, "commands:") {
            listing = true;
        } else if listing {
            if let Some(c) = parse_list_command(t) {
                alts.push(c);
                proof {
                    assert(views_of(alts@) =~~= old_alts.push(spec_list_command(t@)->Some_0));
                }
            }
        } else {
            body.push(String::from_str(t));
            proof {
                assert(views_of(body@) =~~= old_body.push(t@));
            }
        }
        proof {
            assert(opt_view(command) == st2.command);
            assert(opt_view(explanation) == st2.explanation);
            assert(opt_view(explanation_line) == st2.explanation_line);
            assert(views_of(body@) =~~= st2.body);
            assert(views_of(code_buf@) =~~= st2.code_buf);
            assert(in_code == st2.in_code);
            assert(listing == st2.listing);
            assert(views_of(alts@) =~~= st2.alts);
        }
        i = i + 1;
    }
    let ghost stf = run_prefix(lviews, lviews.len() as int);
    if command.is_none() && code_buf.len() > 0 {
        command = Some(join_with(&code_buf, "\n"));
    }
    let ghost c0 = opt_view(command);
    let candidate: String = match command {
        Some(c) => c,
        None => {
            if body.len() > 0 {
                let ghost old_body = views_of(body@);
                let first = body.remove(0);
                proof {
                    assert(views_of(body@) =~~= old_body.drop_first());
                }
                first
            } else {
                match explanation_line {
                    Some(l) => l,
                    None => {
                        proof {
                            assert(spec_resolve(stf, raw@) is None);
                        }
                        return Err(GenerationError::MissingCommand);
                    },
                }
            }
        },
    };
    let explanation_final: String = match explanation {
        Some(e) => e,
        None => join_with(&body, " "),
    };
    let (cmd, confidence) = coerce_command(candidate.as_str(), raw, alts.as_slice());
    let alternatives = dedup_alternatives(&alts, cmd.as_str());
    proof {
        assert(spec_resolve(stf, raw@) is Some);
        assert(spec_resolve(stf, raw@)->Some_0.command == cmd@);
        assert(spec_resolve(stf, raw@)->Some_0.explanation == explanation_final@);
        assert(spec_resolve(stf, raw@)->Some_0.alternatives == views_of(alternatives@));
        assert(spec_resolve(stf, raw@)->Some_0.confidence == confidence);
    }
    Ok(ParsedResponse { command: cmd, explanation: explanation_final, alternatives, confidence })
}

} // verus!
