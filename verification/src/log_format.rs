//! How the place that a log line comes from is written.

use vstd::prelude::*;
use crate::text::{decimal_text, push_decimal};

verus! {

/// What `regex` captures where it looks for `pattern` in `text`: the text
/// of each group of the leftmost match, group 0 being the whole match, with
/// `None` for a group that took no part; `None` where `text` holds no match
/// or `pattern` is no pattern.
pub uninterp spec fn regex_captures(pattern: Seq<char>, text: Seq<char>) -> Option<
    Seq<Option<Seq<char>>>,
>;

/// The groups as sequences of characters.
pub open spec fn groups_view(groups: Option<Vec<Option<String>>>) -> Option<Seq<Option<Seq<char>>>> {
    match groups {
        Some(g) => Some(
            g@.map_values(
                |t: Option<String>|
                    match t {
                        Some(s) => Some(s@),
                        None => None,
                    },
            ),
        ),
        None => None,
    }
}

/// `regex::Regex::new` with `pattern`, then `Regex::captures` on `text`:
/// the groups of the leftmost match as `Captures::iter` yields them, which
/// `regex_captures` stands for. A pattern that `Regex::new` refuses
/// captures nothing.
#[verifier::external_body]
fn captures(pattern: &str, text: &str) -> (r: Option<Vec<Option<String>>>)
    ensures
        groups_view(r) == regex_captures(pattern@, text@),
{
    let re = regex::Regex::new(pattern).ok()?;
    let caps = re.captures(text)?;
    Some(caps.iter().map(|m| m.map(|m| m.as_str().to_owned())).collect())
}

/// The pattern that tells a file of this program and a file of a library
/// apart: group 1 is the path below `src/`, group 2 the directory of the
/// library in cargo's registry.
pub open spec fn path_pattern() -> Seq<char> {
    "^src/(.*)$|^/.*/.cargo/registry/src/[^/]+/([^/]+)/"@
}

/// The place `path`, line `line`, as the log shows it, given what the
/// pattern captured in `path`: a file of this program by its path below
/// `src/` and the line, a file of a library by the library's directory in
/// angle brackets, anything else by the whole path and the line.
pub open spec fn path_label(path: Seq<char>, line: nat, groups: Option<Seq<Option<Seq<char>>>>) -> Seq<
    char,
> {
    match groups {
        Some(g) => if g.len() > 1 && g[1] is Some {
            g[1]->0 + ":"@ + decimal_text(line)
        } else if g.len() > 2 && g[2] is Some {
            "<"@ + g[2]->0 + ">"@
        } else {
            path + ":"@ + decimal_text(line)
        },
        None => path + ":"@ + decimal_text(line),
    }
}

/// The place `path`, line `line`, as the log shows it, given the groups
/// that the pattern captured in `path`.
pub fn format_captured_path(path: &str, line: u32, groups: &Option<Vec<Option<String>>>) -> (r:
    String)
    ensures
        r@ == path_label(path@, line as nat, groups_view(*groups)),
{
    let mut out = String::new();
    match groups {
        Some(g) => {
            if g.len() > 1 {
                match &g[1] {
                    Some(source_file) => {
                        out.append(source_file.as_str());
                        out.append(":");
                        push_decimal(&mut out, line as u64);
                        assert(out@ =~= source_file@ + ":"@ + decimal_text(line as nat));
                        return out;
                    },
                    None => {},
                }
            }
            if g.len() > 2 {
                match &g[2] {
                    Some(external_lib) => {
                        out.append("<");
                        out.append(external_lib.as_str());
                        out.append(">");
                        assert(out@ =~= "<"@ + external_lib@ + ">"@);
                        return out;
                    },
                    None => {},
                }
            }
        },
        None => {},
    }
    out.append(path);
    out.append(":");
    push_decimal(&mut out, line as u64);
    assert(out@ =~= path@ + ":"@ + decimal_text(line as nat));
    out
}

/// The place `path`, line `line`, as the log shows it.
pub fn format_path(path: &str, line: u32) -> (r: String)
    ensures
        r@ == path_label(path@, line as nat, regex_captures(path_pattern(), path@)),
{
    let groups = captures("^src/(.*)$|^/.*/.cargo/registry/src/[^/]+/([^/]+)/", path);
    format_captured_path(path, line, &groups)
}

} // verus!
