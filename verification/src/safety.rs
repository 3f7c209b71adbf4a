//! The safety filter: an ordered set of case-insensitive patterns that
//! block known-dangerous shell commands — recursive force deletes, `sudo`,
//! raw `dd` writes, pipe-to-shell downloads, world-writable permission
//! changes, filesystem formatting, recursive copies, and shutdowns — before
//! any command reaches the caller.

use vstd::prelude::*;
use vstd::string::StrSliceExecFns;

use crate::errors::GenerationError;
use crate::text::{
    chars_eq_ci, contains_gap, contains_gap_ci, contains_seq_ci, contains_sub_ci, contains_word,
    contains_word_ci, find_char_from, is_ws, is_ws_char, matches_at_ci, matches_here, skip_ws_from,
};

verus! {

/// `dd`, white space, then an `of=` operand anywhere later: a raw write to
/// a device or file. The gap may span newlines.
pub open spec fn dd_of_at(s: Seq<char>, i: int, j: int) -> bool {
    &&& matches_at_ci(s, "dd"@, i)
    &&& i + 2 < s.len()
    &&& is_ws_char(s[i + 2])
    &&& j >= i + 3
    &&& matches_at_ci(s, "of="@, j)
}

/// The command contains a `dd ... of=` write.
pub open spec fn spec_dd_of(s: Seq<char>) -> bool {
    exists|i: int, j: int| dd_of_at(s, i, j)
}

/// `curl`, white space, a download argument free of pipes, a pipe, then
/// optional white space and `sh`: a pipe-to-shell download.
pub open spec fn curl_pipe_at(s: Seq<char>, i: int, p: int, w: int) -> bool {
    &&& matches_at_ci(s, "curl"@, i)
    &&& i + 4 < s.len()
    &&& is_ws_char(s[i + 4])
    &&& p >= i + 6
    &&& p < s.len()
    &&& s[p] == '|'
    &&& (forall|k: int| i + 4 <= k < p ==> s[k] != '|')
    &&& w >= 0
    &&& (forall|k: int| p + 1 <= k < p + 1 + w ==> is_ws_char(s[k]))
    &&& matches_at_ci(s, "sh"@, p + 1 + w)
}

/// The command pipes a `curl` download into a shell.
pub open spec fn spec_curl_pipe_sh(s: Seq<char>) -> bool {
    exists|i: int, p: int, w: int| curl_pipe_at(s, i, p, w)
}

/// Whether the safety filter blocks the command: one of the dangerous
/// patterns occurs in its text.
pub open spec fn is_blocked(c: Seq<char>) -> bool {
    ||| contains_gap_ci(c, "rm"@, "-rf"@)
    ||| contains_word_ci(c, "sudo"@)
    ||| spec_dd_of(c)
    ||| spec_curl_pipe_sh(c)
    ||| contains_gap_ci(c, "chmod"@, "777"@)
    ||| contains_seq_ci(c, "mkfs."@)
    ||| contains_gap_ci(c, "scp"@, "-r"@)
    ||| contains_seq_ci(c, "shutdown"@)
    ||| contains_seq_ci(c, "reboot"@)
    ||| contains_seq_ci(c, "poweroff"@)
}

/// Search for a `dd ... of=` write.
fn has_dd_of(s: &str) -> (r: bool)
    ensures
        r == spec_dd_of(s@),
{
    proof {
        reveal_strlit("dd");
        reveal_strlit("of=");
    }
    let n = s.unicode_len();
    let mut i: usize = 0;
    while i < n
        invariant
            0 <= i <= n,
            n == s@.len(),
            "dd"@.len() == 2 && "of="@.len() == 3,
            forall|k: int, j: int| 0 <= k < i ==> !dd_of_at(s@, k, j),
        decreases n - i,
    {
        let head_ok = 2 <= n - i && matches_here(s, "dd", i, true) && 2 < n - i && is_ws(
            s.get_char(i + 2),
        );
        if head_ok {
            let mut j: usize = i + 3;
            while j < n
                invariant
                    i + 3 <= j <= n,
                    n == s@.len(),
                    "of="@.len() == 3,
                    matches_at_ci(s@, "dd"@, i as int),
                    i + 2 < n && is_ws_char(s@[i + 2]),
                    forall|k: int| i + 3 <= k < j ==> !matches_at_ci(s@, "of="@, k),
                decreases n - j,
            {
                if 3 <= n - j && matches_here(s, "of=", j, true) {
                    proof {
                        assert(dd_of_at(s@, i as int, j as int));
                    }
                    return true;
                }
                proof {
                    if matches_at_ci(s@, "of="@, j as int) {
                        assert(j + 3 <= n);
                        assert(false);
                    }
                }
                j = j + 1;
            }
            proof {
                assert forall|jj: int| !dd_of_at(s@, i as int, jj) by {
                    if dd_of_at(s@, i as int, jj) {
                        assert(jj + 3 <= n);
                        assert(i + 3 <= jj < n);
                    }
                }
            }
        } else {
            proof {
                assert forall|jj: int| !dd_of_at(s@, i as int, jj) by {
                    if dd_of_at(s@, i as int, jj) {
                        assert(matches_at_ci(s@, "dd"@, i as int));
                        assert(i + 2 < n && is_ws_char(s@[i + 2]));
                    }
                }
            }
        }
        i = i + 1;
    }
    proof {
        assert(forall|k: int, j: int| dd_of_at(s@, k, j) ==> 0 <= k < s@.len());
    }
    false
}

/// Search for a `curl ... | sh` pipe.
fn has_curl_pipe_sh(s: &str) -> (r: bool)
    ensures
        r == spec_curl_pipe_sh(s@),
{
    proof {
        reveal_strlit("curl");
        reveal_strlit("sh");
    }
    let n = s.unicode_len();
    let mut i: usize = 0;
    while i < n
        invariant
            0 <= i <= n,
            n == s@.len(),
            "curl"@.len() == 4 && "sh"@.len() == 2,
            forall|k: int, p: int, w: int| 0 <= k < i ==> !curl_pipe_at(s@, k, p, w),
        decreases n - i,
    {
        let head_ok = 4 <= n - i && matches_here(s, "curl", i, true) && 4 < n - i && is_ws(
            s.get_char(i + 4),
        );
        if head_ok {
            let p0 = find_char_from(s, '|', i + 4);
            if p0 < n && p0 >= i + 6 {
                let e2 = skip_ws_from(s, p0 + 1);
                if 2 <= n - e2 && matches_here(s, "sh", e2, true) {
                    proof {
                        assert(curl_pipe_at(s@, i as int, p0 as int, e2 - (p0 + 1)));
                    }
                    return true;
                }
                proof {
                    reveal_strlit("sh");
                    lemma_curl_reject_tail(s@, i as int, p0 as int, e2 as int);
                    assert forall|p: int, w: int| !curl_pipe_at(s@, i as int, p, w) by {
                        if curl_pipe_at(s@, i as int, p, w) {
                            if p > p0 {
                                assert(i + 4 <= p0 < p);
                                assert(s@[p0 as int] != '|');
                                assert(false);
                            } else if p < p0 {
                                assert(i + 4 <= p < p0);
                                assert(s@[p] != '|');
                                assert(false);
                            }
                        }
                    }
                }
            } else {
                proof {
                    assert forall|p: int, w: int| !curl_pipe_at(s@, i as int, p, w) by {
                        if curl_pipe_at(s@, i as int, p, w) {
                            if p0 == n {
                                assert(i + 4 <= p < n);
                                assert(s@[p] != '|');
                                assert(false);
                            } else if p > p0 {
                                assert(i + 4 <= p0 < p);
                                assert(s@[p0 as int] != '|');
                                assert(false);
                            } else if p < p0 {
                                assert(i + 4 <= p < p0);
                                assert(s@[p] != '|');
                                assert(false);
                            } else {
                                assert(p == p0 && p0 < i + 6);
                                assert(false);
                            }
                        }
                    }
                }
            }
        } else {
            proof {
                assert forall|p: int, w: int| !curl_pipe_at(s@, i as int, p, w) by {
                    if curl_pipe_at(s@, i as int, p, w) {
                        assert(matches_at_ci(s@, "curl"@, i as int));
                        assert(i + 4 < n && is_ws_char(s@[i + 4]));
                    }
                }
            }
        }
        i = i + 1;
    }
    proof {
        assert(forall|k: int, p: int, w: int| curl_pipe_at(s@, k, p, w) ==> 0 <= k < s@.len());
    }
    false
}

/// When `sh` fails right after the white space following the first pipe,
/// no `w` makes the tail of the pipe pattern match there.
proof fn lemma_curl_reject_tail(s: Seq<char>, i: int, p0: int, e2: int)
    requires
        "sh"@.len() == 2,
        0 <= i,
        i + 4 < s.len(),
        p0 < s.len(),
        s[p0] == '|',
        p0 >= i + 6,
        forall|k: int| i + 4 <= k < p0 ==> s[k] != '|',
        p0 + 1 <= e2 <= s.len(),
        forall|k: int| p0 + 1 <= k < e2 ==> is_ws_char(s[k]),
        e2 < s.len() ==> !is_ws_char(s[e2]),
        !(e2 + 2 <= s.len() && matches_at_ci(s, "sh"@, e2)),
        lower_sh_facts(),
    ensures
        forall|p: int, w: int| !(curl_pipe_at(s, i, p, w) && p == p0),
{
    assert forall|p: int, w: int| !(curl_pipe_at(s, i, p, w) && p == p0) by {
        if curl_pipe_at(s, i, p, w) && p == p0 {
            let q = p0 + 1 + w;
            if q < e2 {
                assert(is_ws_char(s[q]));
                assert(chars_eq_ci(s[q + 0], "sh"@[0]));
                assert(false);
            } else if q > e2 {
                assert(e2 < s.len());
                assert(p0 + 1 <= e2 < q);
                assert(is_ws_char(s[e2]));
                assert(false);
            } else {
                assert(matches_at_ci(s, "sh"@, e2));
                assert(e2 + 2 <= s.len());
                assert(false);
            }
        }
    }
}

/// The lowered first character of `sh` is no white-space character.
spec fn lower_sh_facts() -> bool {
    forall|d: char| is_ws_char(d) ==> !chars_eq_ci("sh"@[0], d)
}

/// Run the heuristic safety checks against the resolved command text;
/// a blocked command yields a terminal, non-retryable error.
pub fn enforce_safety(command: &str) -> (r: Result<(), GenerationError>)
    ensures
        r is Ok <==> !is_blocked(command@),
        r is Err ==> r->Err_0 == GenerationError::SafetyBlocked,
{
    proof {
        reveal_strlit("rm");
        reveal_strlit("-rf");
        reveal_strlit("sudo");
        reveal_strlit("chmod");
        reveal_strlit("777");
        reveal_strlit("mkfs.");
        reveal_strlit("scp");
        reveal_strlit("-r");
        reveal_strlit("shutdown");
        reveal_strlit("reboot");
        reveal_strlit("poweroff");
    }
    let blocked = contains_gap(command, "rm", "-rf", false) || contains_word(command, "sudo")
        || has_dd_of(command) || has_curl_pipe_sh(command) || contains_gap(
        command,
        "chmod",
        "777",
        false,
    ) || contains_sub_ci(command, "mkfs.") || contains_gap(command, "scp", "-r", false)
        || contains_sub_ci(command, "shutdown") || contains_sub_ci(command, "reboot")
        || contains_sub_ci(command, "poweroff");
    if blocked {
        Err(GenerationError::SafetyBlocked)
    } else {
        Ok(())
    }
}

} // verus!
