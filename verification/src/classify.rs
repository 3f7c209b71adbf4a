//! Confidence classification of a command candidate: decides whether the
//! extracted text is directly runnable, needs user confirmation, or is
//! guidance only, coercing it into shape along the way.

use vstd::prelude::*;
use vstd::string::StrSliceExecFns;
use vstd::string::StringExecFns;

use crate::text::{
    char_len, contains_char, contains_gap, contains_gap_word_ci, contains_word, contains_word_ci,
    ends_with_char, eq_str, eq_str_ci, find_ch, find_char_from, first_token, first_token_str,
    lemma_find_ch, lemma_find_ch_bounds, seq_eq_ci, spec_trim, trim_str,
};

verus! {

/// How much trust the pipeline places in an extracted command: safe to run
/// as-is, or in need of the user's review first.
#[derive(Debug, Clone, PartialEq, Eq)]
pub enum CommandConfidence {
    Certain,
    NeedsConfirmation,
}

/// Head tokens that mark a candidate as prose rather than a command.
pub open spec fn filler_head(h: Seq<char>) -> bool {
    ||| h.len() == 0
    ||| h == "the"@
    ||| h == "this"@
    ||| h == "that"@
    ||| h == "those"@
    ||| h == "uses"@
    ||| h == "use"@
    ||| h == "command"@
}

/// A value looks like a command when, trimmed, it is non-empty, is not a
/// comment, and does not open with a filler word.
pub open spec fn spec_looks_like_command(v: Seq<char>) -> bool {
    let t = spec_trim(v);
    t.len() > 0 && t[0] != '#' && !filler_head(first_token(t))
}

/// Whether `value` plausibly is a shell command rather than prose.
pub fn looks_like_command(value: &str) -> (r: bool)
    ensures
        r == spec_looks_like_command(value@),
{
    let t = trim_str(value);
    if char_len(t) == 0 {
        return false;
    }
    if t.get_char(0) == '#' {
        return false;
    }
    let h = first_token_str(t);
    if char_len(h) == 0 {
        return false;
    }
    !(eq_str(h, "the") || eq_str(h, "this") || eq_str(h, "that") || eq_str(h, "those") || eq_str(
        h,
        "uses",
    ) || eq_str(h, "use") || eq_str(h, "command"))
}

/// First words that read as the opening of an English sentence.
pub open spec fn sentence_head(h: Seq<char>) -> bool {
    ||| seq_eq_ci(h, "the"@)
    ||| seq_eq_ci(h, "this"@)
    ||| seq_eq_ci(h, "that"@)
    ||| seq_eq_ci(h, "these"@)
    ||| seq_eq_ci(h, "those"@)
    ||| seq_eq_ci(h, "it"@)
}

/// A single-line value reads as a sentence when it opens with a pronoun or
/// determiner, or ends with a period.
pub open spec fn spec_looks_like_sentence(v: Seq<char>) -> bool {
    if v.contains('\n') {
        false
    } else {
        let t = spec_trim(v);
        let h = first_token(t);
        if h.len() == 0 {
            false
        } else if sentence_head(h) {
            true
        } else {
            t.len() > 0 && t.last() == '.'
        }
    }
}

/// Whether `value` reads as an English sentence rather than a command.
pub fn looks_like_sentence(value: &str) -> (r: bool)
    ensures
        r == spec_looks_like_sentence(value@),
{
    if contains_char(value, '\n') {
        return false;
    }
    let t = trim_str(value);
    let h = first_token_str(t);
    if char_len(h) == 0 {
        return false;
    }
    if eq_str_ci(h, "the") || eq_str_ci(h, "this") || eq_str_ci(h, "that") || eq_str_ci(h, "these")
        || eq_str_ci(h, "those") || eq_str_ci(h, "it") {
        return true;
    }
    ends_with_char(t, '.')
}

/// The first inline-code span of `s`: backticks pair up left to right, and
/// the first pair whose interior trims to something non-empty yields that
/// trimmed interior.
pub open spec fn spec_inline_code(s: Seq<char>) -> Option<Seq<char>>
    decreases s.len(),
    via spec_inline_code_decreases
{
    let p1 = find_ch(s, '`');
    if p1 == s.len() {
        None
    } else {
        let rest = s.skip(p1 + 1);
        let p2 = find_ch(rest, '`');
        if p2 == rest.len() {
            None
        } else {
            let t = spec_trim(rest.take(p2));
            if t.len() > 0 {
                Some(t)
            } else {
                spec_inline_code(rest.skip(p2 + 1))
            }
        }
    }
}

#[via_fn]
proof fn spec_inline_code_decreases(s: Seq<char>) {
    lemma_find_ch_bounds(s, '`');
    let p1 = find_ch(s, '`');
    if p1 < s.len() {
        lemma_find_ch_bounds(s.skip(p1 + 1), '`');
    }
}

/// Extract the first non-empty inline-code span between single backticks,
/// as [`spec_inline_code`] describes.
pub fn extract_inline_code(input: &str) -> (r: Option<String>)
    ensures
        match r {
            Some(x) => spec_inline_code(input@) == Some(x@),
            None => spec_inline_code(input@) is None,
        },
{
    let n = input.unicode_len();
    let mut pos: usize = 0;
    proof {
        assert(input@.skip(0) =~= input@);
    }
    loop
        invariant
            0 <= pos <= n,
            n == input@.len(),
            spec_inline_code(input@) == spec_inline_code(input@.skip(pos as int)),
        decreases n - pos,
    {
        let ghost r0 = input@.skip(pos as int);
        let p1 = find_char_from(input, '`', pos);
        proof {
            assert(forall|k: int| 0 <= k < r0.len() ==> #[trigger] r0[k] == input@[pos + k]);
            lemma_find_ch(r0, '`', p1 - pos);
        }
        if p1 == n {
            return None;
        }
        let ghost rest = input@.skip(p1 + 1);
        let p2 = find_char_from(input, '`', p1 + 1);
        proof {
            assert(forall|k: int| 0 <= k < rest.len() ==> #[trigger] rest[k] == input@[p1 + 1 + k]);
            lemma_find_ch(rest, '`', p2 - p1 - 1);
            assert(r0.skip(p1 - pos + 1) =~= rest);
        }
        if p2 == n {
            return None;
        }
        let interior = input.substring_char(p1 + 1, p2);
        let t = trim_str(interior);
        proof {
            assert(interior@ =~= rest.take(p2 - p1 - 1));
        }
        if char_len(t) > 0 {
            return Some(String::from_str(t));
        }
        proof {
            assert(rest.skip(p2 - p1 - 1 + 1) =~= input@.skip(p2 + 1));
        }
        pos = p2 + 1;
    }
}

/// The incomplete-reference heuristic: the candidate names a bare pronoun
/// or determiner, says "use the", or speaks of a "command".
pub open spec fn spec_incomplete_reference(t: Seq<char>) -> bool {
    ||| contains_word_ci(t, "the"@)
    ||| contains_word_ci(t, "this"@)
    ||| contains_word_ci(t, "that"@)
    ||| contains_word_ci(t, "those"@)
    ||| contains_word_ci(t, "it"@)
    ||| contains_gap_word_ci(t, "use"@, "the"@)
    ||| contains_word_ci(t, "command"@)
}

fn is_incomplete_reference(t: &str) -> (r: bool)
    ensures
        r == spec_incomplete_reference(t@),
{
    proof {
        reveal_strlit("the");
        reveal_strlit("this");
        reveal_strlit("that");
        reveal_strlit("those");
        reveal_strlit("it");
        reveal_strlit("use");
        reveal_strlit("command");
    }
    contains_word(t, "the") || contains_word(t, "this") || contains_word(t, "that")
        || contains_word(t, "those") || contains_word(t, "it") || contains_gap(t, "use", "the", true)
        || contains_word(t, "command")
}

/// What [`coerce_command`] yields: the resolved command text and its
/// confidence, in this order of checks — empty, guidance, inline code in
/// the candidate, sentence (falling back to inline code in the whole
/// reply), incomplete reference, plain command.
pub open spec fn spec_coerce(candidate: Seq<char>, raw: Seq<char>) -> (Seq<char>,
    CommandConfidence) {
    let t = spec_trim(candidate);
    if t.len() == 0 {
        (Seq::empty(), CommandConfidence::NeedsConfirmation)
    } else if t[0] == '#' {
        (t, CommandConfidence::Certain)
    } else if spec_inline_code(t) is Some {
        (spec_inline_code(t)->Some_0, CommandConfidence::Certain)
    } else if spec_looks_like_sentence(t) {
        if spec_inline_code(raw) is Some {
            (spec_inline_code(raw)->Some_0, CommandConfidence::Certain)
        } else {
            ("# "@ + t, CommandConfidence::NeedsConfirmation)
        }
    } else if spec_incomplete_reference(t) {
        (t, CommandConfidence::NeedsConfirmation)
    } else {
        (t, CommandConfidence::Certain)
    }
}

/// Coerce a raw command candidate into a runnable command or guidance,
/// classifying how trustworthy it is. `raw` is the whole reply, consulted
/// for inline code when the candidate reads as a sentence.
pub fn coerce_command(candidate: &str, raw: &str, _alternatives: &[String]) -> (r: (
    String,
    CommandConfidence,
))
    ensures
        r.0@ == spec_coerce(candidate@, raw@).0,
        r.1 == spec_coerce(candidate@, raw@).1,
{
    let t = trim_str(candidate);
    if char_len(t) == 0 {
        return (String::new(), CommandConfidence::NeedsConfirmation);
    }
    if t.get_char(0) == '#' {
        return (String::from_str(t), CommandConfidence::Certain);
    }
    if let Some(inline) = extract_inline_code(t) {
        return (inline, CommandConfidence::Certain);
    }
    if looks_like_sentence(t) {
        if let Some(inline) = extract_inline_code(raw) {
            return (inline, CommandConfidence::Certain);
        }
        let mut out = String::new();
        out.append("# ");
        out.append(t);
        return (out, CommandConfidence::NeedsConfirmation);
    }
    if is_incomplete_reference(t) {
        return (String::from_str(t), CommandConfidence::NeedsConfirmation);
    }
    (String::from_str(t), CommandConfidence::Certain)
}

/// A guidance command — one whose trimmed text already begins with `#` —
/// passes through coercion unchanged and is classified as certain:
/// re-coercing extracted guidance never alters it.
pub proof fn lemma_coerce_guidance_unchanged(candidate: Seq<char>, raw: Seq<char>)
    requires
        spec_trim(candidate).len() > 0,
        spec_trim(candidate)[0] == '#',
    ensures
        spec_coerce(candidate, raw) == (spec_trim(candidate), CommandConfidence::Certain),
{
}

} // verus!
