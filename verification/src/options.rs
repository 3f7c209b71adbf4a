//! Helpers for presenting a generated command to the user: which texts
//! are runnable at all, the deduplicated list of runnable options, and a
//! human-readable size for enriched command output.

use vstd::prelude::*;
use vstd::string::StringExecFns;

use crate::text::{char_len, eq_str, spec_trim, trim_str, views_of};

verus! {

/// The runnable form of a suggested text: its trimmed content, unless
/// that is empty or guidance (comment-prefixed).
pub open spec fn spec_executable(v: Seq<char>) -> Option<Seq<char>> {
    let t = spec_trim(v);
    if t.len() == 0 || t[0] == '#' {
        None
    } else {
        Some(t)
    }
}

/// The trimmed command when it can be executed; nothing for empty or
/// guidance-only text.
pub fn executable_command(value: &str) -> (r: Option<String>)
    ensures
        match r {
            Some(x) => spec_executable(value@) == Some(x@),
            None => spec_executable(value@) is None,
        },
{
    let t = trim_str(value);
    if char_len(t) == 0 {
        return None;
    }
    if t.get_char(0) == '#' {
        return None;
    }
    Some(String::from_str(t))
}

/// The runnable options drawn from a sequence of suggested texts, first
/// occurrence of each kept, compared exactly.
pub open spec fn opts_from(items: Seq<Seq<char>>, seen: Seq<Seq<char>>) -> Seq<Seq<char>>
    decreases items.len(),
{
    if items.len() == 0 {
        Seq::empty()
    } else {
        match spec_executable(items[0]) {
            None => opts_from(items.drop_first(), seen),
            Some(c) => {
                if exists|k: int| 0 <= k < seen.len() && seen[k] == c {
                    opts_from(items.drop_first(), seen)
                } else {
                    seq![c] + opts_from(items.drop_first(), seen.push(c))
                }
            },
        }
    }
}

/// The distinct runnable options offered to the user: the primary
/// command, then each alternative, in order.
pub open spec fn spec_command_options(cmd: Seq<char>, alts: Seq<Seq<char>>) -> Seq<Seq<char>> {
    opts_from(seq![cmd] + alts, Seq::empty())
}

/// Whether `claimed` already holds `c`, compared exactly.
fn already_seen(claimed: &Vec<String>, c: &str) -> (r: bool)
    ensures
        r == exists|k: int| 0 <= k < views_of(claimed@).len() && views_of(claimed@)[k] == c@,
{
    let mut k: usize = 0;
    while k < claimed.len()
        invariant
            0 <= k <= claimed@.len(),
            forall|j: int| 0 <= j < k ==> claimed@[j]@ != c@,
        decreases claimed@.len() - k,
    {
        if eq_str(claimed[k].as_str(), c) {
            proof {
                assert(views_of(claimed@)[k as int] == c@);
            }
            return true;
        }
        k = k + 1;
    }
    proof {
        assert forall|j: int| 0 <= j < views_of(claimed@).len() implies views_of(claimed@)[j]
            != c@ by {
            assert(claimed@[j]@ != c@);
        }
    }
    false
}

/// One candidate's effect on the collected options and the claimed set.
pub open spec fn opt_step(rv: Seq<Seq<char>>, cv: Seq<Seq<char>>, item: Seq<char>) -> (
    Seq<Seq<char>>,
    Seq<Seq<char>>,
) {
    match spec_executable(item) {
        None => (rv, cv),
        Some(c) => {
            if exists|k: int| 0 <= k < cv.len() && cv[k] == c {
                (rv, cv)
            } else {
                (rv.push(c), cv.push(c))
            }
        },
    }
}

/// Add `item` to the collected options when it is runnable and unseen.
fn consider_option(r: &mut Vec<String>, claimed: &mut Vec<String>, item: &str)
    ensures
        views_of(final(r)@) == opt_step(views_of(old(r)@), views_of(old(claimed)@), item@).0,
        views_of(final(claimed)@) == opt_step(views_of(old(r)@), views_of(old(claimed)@), item@).1,
{
    let ghost old_r = views_of(r@);
    let ghost old_c = views_of(claimed@);
    match executable_command(item) {
        None => {
        },
        Some(c) => {
            let seen = already_seen(claimed, c.as_str());
            if !seen {
                r.push(c.clone());
                claimed.push(c);
                proof {
                    assert(views_of(r@) =~~= old_r.push(spec_executable(item@)->0));
                    assert(views_of(claimed@) =~~= old_c.push(spec_executable(item@)->0));
                }
            }
        },
    }
}

/// Unfolding [`opts_from`] over its first item, phrased through
/// [`opt_step`].
proof fn lemma_opts_from_step(items: Seq<Seq<char>>, rv: Seq<Seq<char>>, cv: Seq<Seq<char>>)
    requires
        items.len() > 0,
    ensures
        rv + opts_from(items, cv) =~~= opt_step(rv, cv, items[0]).0 + opts_from(
            items.drop_first(),
            opt_step(rv, cv, items[0]).1,
        ),
{
    match spec_executable(items[0]) {
        None => {},
        Some(c) => {
            if exists|k: int| 0 <= k < cv.len() && cv[k] == c {
            } else {
                assert(rv + (seq![c] + opts_from(items.drop_first(), cv.push(c))) =~~= rv.push(c)
                    + opts_from(items.drop_first(), cv.push(c)));
            }
        },
    }
}

/// Collect the distinct runnable options — the primary command first,
/// then the alternatives — as [`spec_command_options`] describes.
pub fn command_options(cmd: &str, alternatives: &Vec<String>) -> (r: Vec<String>)
    ensures
        views_of(r@) == spec_command_options(cmd@, views_of(alternatives@)),
{
    let ghost aviews = views_of(alternatives@);
    let ghost items = seq![cmd@] + aviews;
    let mut r: Vec<String> = Vec::new();
    let mut claimed: Vec<String> = Vec::new();
    proof {
        assert(views_of(r@) =~~= Seq::<Seq<char>>::empty());
        assert(views_of(claimed@) =~~= Seq::<Seq<char>>::empty());
        lemma_opts_from_step(items, views_of(r@), views_of(claimed@));
        assert(items[0] == cmd@);
        assert(items.drop_first() =~~= aviews);
    }
    consider_option(&mut r, &mut claimed, cmd);
    let mut j: usize = 0;
    let n = alternatives.len();
    proof {
        assert(aviews.skip(0) =~~= aviews);
    }
    while j < n
        invariant
            0 <= j <= n,
            n == alternatives@.len(),
            aviews == views_of(alternatives@),
            spec_command_options(cmd@, aviews) =~~= views_of(r@) + opts_from(
                aviews.skip(j as int),
                views_of(claimed@),
            ),
        decreases n - j,
    {
        let ghost rest = aviews.skip(j as int);
        proof {
            assert(rest[0] == aviews[j as int]);
            assert(rest.drop_first() =~~= aviews.skip(j + 1));
            lemma_opts_from_step(rest, views_of(r@), views_of(claimed@));
        }
        let item: &str = alternatives[j].as_str();
        proof {
            assert(item@ == rest[0]);
        }
        consider_option(&mut r, &mut claimed, item);
        j = j + 1;
    }
    proof {
        assert(aviews.skip(n as int) =~~= Seq::<Seq<char>>::empty());
        assert(views_of(r@) =~~= spec_command_options(cmd@, aviews));
    }
    r
}

/// The decimal digits of a non-negative number.
pub open spec fn digit_char(d: int) -> char {
    if d == 0 {
        '0'
    } else if d == 1 {
        '1'
    } else if d == 2 {
        '2'
    } else if d == 3 {
        '3'
    } else if d == 4 {
        '4'
    } else if d == 5 {
        '5'
    } else if d == 6 {
        '6'
    } else if d == 7 {
        '7'
    } else if d == 8 {
        '8'
    } else {
        '9'
    }
}

/// The decimal rendering of a non-negative number.
pub open spec fn spec_dec(n: int) -> Seq<char>
    decreases n,
{
    if n < 10 {
        seq![digit_char(n)]
    } else {
        spec_dec(n / 10).push(digit_char(n % 10))
    }
}

/// One decimal digit as text.
fn digit_str(d: u64) -> (r: &'static str)
    requires
        d < 10,
    ensures
        r@ =~= seq![digit_char(d as int)],
{
    proof {
        reveal_strlit("0");
        reveal_strlit("1");
        reveal_strlit("2");
        reveal_strlit("3");
        reveal_strlit("4");
        reveal_strlit("5");
        reveal_strlit("6");
        reveal_strlit("7");
        reveal_strlit("8");
        reveal_strlit("9");
    }
    match d {
        0 => "0",
        1 => "1",
        2 => "2",
        3 => "3",
        4 => "4",
        5 => "5",
        6 => "6",
        7 => "7",
        8 => "8",
        _ => "9",
    }
}

/// Append the decimal rendering of `n`.
fn push_dec(n: u64, out: &mut String)
    ensures
        final(out)@ == old(out)@ + spec_dec(n as int),
    decreases n,
{
    if n < 10 {
        out.append(digit_str(n));
    } else {
        proof {
            assert(n / 10 < n) by (nonlinear_arith)
                requires
                    n >= 10,
            ;
        }
        push_dec(n / 10, out);
        out.append(digit_str(n % 10));
        proof {
            assert(spec_dec(n as int) =~= spec_dec(n as int / 10).push(
                digit_char(n as int % 10),
            ));
        }
    }
}

/// A size rendered with a metric unit, dividing by powers of one
/// thousand: `B`, `KB`, `MB` or `GB`.
pub open spec fn spec_format_size(bytes: int) -> Seq<char> {
    if bytes >= 1000000000 {
        spec_dec(bytes / 1000000000) + " GB"@
    } else if bytes >= 1000000 {
        spec_dec(bytes / 1000000) + " MB"@
    } else if bytes >= 1000 {
        spec_dec(bytes / 1000) + " KB"@
    } else {
        spec_dec(bytes) + " B"@
    }
}

/// Render a byte count for humans, as [`spec_format_size`] describes.
pub fn format_size(bytes: u64) -> (r: String)
    ensures
        r@ == spec_format_size(bytes as int),
{
    let mut out = String::new();
    if bytes >= 1000000000 {
        push_dec(bytes / 1000000000, &mut out);
        out.append(" GB");
    } else if bytes >= 1000000 {
        push_dec(bytes / 1000000, &mut out);
        out.append(" MB");
    } else if bytes >= 1000 {
        push_dec(bytes / 1000, &mut out);
        out.append(" KB");
    } else {
        push_dec(bytes, &mut out);
        out.append(" B");
    }
    out
}

} // verus!
