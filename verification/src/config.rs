//! Configuration data: the values read from a `.task.toml` file, the
//! merged application configuration, the default configuration path, and
//! the rewrite of a `.env` file that stores a credential.

use vstd::prelude::*;
use vstd::string::StringExecFns;

use crate::text::{
    contains_seq, contains_sub, ends_with, spec_lines, split_lines, starts_with, starts_with_str,
};

verus! {

/// The optional values a configuration file may set.
#[derive(Debug, Default)]
pub struct FileConfig {
    pub default_shell: Option<String>,
    pub model: Option<String>,
    pub system_prompt: Option<String>,
    pub verbose: Option<bool>,
    pub spinner: Option<bool>,
}

/// The application configuration after merging: explicit values win over
/// file-provided ones.
#[derive(Debug, Default, Clone)]
pub struct AppConfig {
    pub default_shell: Option<String>,
    pub model: Option<String>,
    pub system_prompt: Option<String>,
    pub verbose: Option<bool>,
    pub spinner: Option<bool>,
}

/// Relies on dirs::home_dir: the user's home directory as reported by the
/// platform, when there is one whose path is valid Unicode. The result
/// depends on the environment, so nothing more is promised of it.
#[verifier::external_body]
fn home_dir_string() -> (r: Option<String>) {
    dirs::home_dir().and_then(|p| p.to_str().map(|s| s.to_string()))
}

impl AppConfig {
    /// Fill every still-unset field from a file's values.
    pub fn apply(&mut self, file: FileConfig)
        ensures
            final(self).default_shell == if old(self).default_shell is Some {
                old(self).default_shell
            } else {
                file.default_shell
            },
            final(self).model == if old(self).model is Some {
                old(self).model
            } else {
                file.model
            },
            final(self).system_prompt == if old(self).system_prompt is Some {
                old(self).system_prompt
            } else {
                file.system_prompt
            },
            final(self).verbose == if old(self).verbose is Some {
                old(self).verbose
            } else {
                file.verbose
            },
            final(self).spinner == if old(self).spinner is Some {
                old(self).spinner
            } else {
                file.spinner
            },
    {
        if self.default_shell.is_none() {
            self.default_shell = file.default_shell;
        }
        if self.model.is_none() {
            self.model = file.model;
        }
        if self.system_prompt.is_none() {
            self.system_prompt = file.system_prompt;
        }
        if self.verbose.is_none() {
            self.verbose = file.verbose;
        }
        if self.spinner.is_none() {
            self.spinner = file.spinner;
        }
    }

    /// The default configuration path: `.task.toml` in the home
    /// directory, when the platform reports one.
    pub fn default_path() -> (r: Option<String>)
        ensures
            r matches Some(p) ==> ends_with(p@, "/.task.toml"@),
    {
        match home_dir_string() {
            None => None,
            Some(h) => {
                let ghost hv = h@;
                let mut p = h;
                p.append("/.task.toml");
                proof {
                    assert(p@ =~= hv + "/.task.toml"@);
                    assert forall|j: int| 0 <= j < "/.task.toml"@.len() implies p@[hv.len() + j]
                        == "/.task.toml"@[j] by {
                        assert(p@[hv.len() + j] == (hv + "/.task.toml"@)[hv.len() + j]);
                    }
                }
                Some(p)
            },
        }
    }
}

/// One kept line followed by a newline for each line of `lines` that does
/// not open with `keypfx`.
pub open spec fn cat_kept(lines: Seq<Seq<char>>, keypfx: Seq<char>) -> Seq<char>
    decreases lines.len(),
{
    if lines.len() == 0 {
        Seq::empty()
    } else {
        (if !starts_with(lines[0], keypfx) {
            lines[0] + "\n"@
        } else {
            Seq::empty()
        }) + cat_kept(lines.drop_first(), keypfx)
    }
}

/// What a `.env` file holds after storing `key="value"`: when the key
/// already occurs anywhere in the contents, every line opening with
/// `key=` is dropped and the fresh assignment appended after the kept
/// lines, each newline-terminated; otherwise the assignment is appended
/// as-is.
pub open spec fn spec_updated_env(contents: Seq<char>, key: Seq<char>, value: Seq<char>) -> Seq<
    char,
> {
    let assignment = key + "=\""@ + value + "\"\n"@;
    if contains_seq(contents, key) {
        cat_kept(spec_lines(contents), key + "="@) + assignment
    } else {
        contents + assignment
    }
}

/// Compute the new contents of a `.env` file that stores `key="value"`,
/// as [`spec_updated_env`] describes. The caller reads and writes the
/// file itself.
pub fn updated_env_contents(contents: &str, key: &str, value: &str) -> (r: String)
    ensures
        r@ == spec_updated_env(contents@, key@, value@),
{
    let mut assignment = String::new();
    assignment.append(key);
    assignment.append("=\"");
    assignment.append(value);
    assignment.append("\"\n");
    let ghost asg = key@ + "=\""@ + value@ + "\"\n"@;
    proof {
        assert(assignment@ =~= asg);
    }
    if contains_sub(contents, key) {
        let lines = split_lines(contents);
        let ghost lviews = spec_lines(contents@);
        let mut keypfx = String::new();
        keypfx.append(key);
        keypfx.append("=");
        proof {
            assert(keypfx@ =~= key@ + "="@);
        }
        let mut out = String::new();
        let mut i: usize = 0;
        proof {
            assert(lviews.skip(0) =~~= lviews);
        }
        while i < lines.len()
            invariant
                0 <= i <= lines@.len(),
                lviews == spec_lines(contents@),
                lines@.len() == lviews.len(),
                forall|k: int| 0 <= k < lines@.len() ==> #[trigger] lines@[k]@ == lviews[k],
                keypfx@ == key@ + "="@,
                cat_kept(lviews, keypfx@) =~= out@ + cat_kept(lviews.skip(i as int), keypfx@),
            decreases lines@.len() - i,
        {
            let ghost rest = lviews.skip(i as int);
            proof {
                assert(rest[0] == lviews[i as int]);
                assert(rest.drop_first() =~~= lviews.skip(i + 1));
            }
            let line = lines[i];
            if !starts_with_str(line, keypfx.as_str()) {
                out.append(line);
                out.append("\n");
            }
            i = i + 1;
        }
        proof {
            assert(lviews.skip(lviews.len() as int) =~~= Seq::<Seq<char>>::empty());
            assert(out@ =~= cat_kept(lviews, keypfx@));
        }
        out.append(assignment.as_str());
        out
    } else {
        let mut out = String::from_str(contents);
        out.append(assignment.as_str());
        out
    }
}

} // verus!
