//! Plugins: `iris-agentic-dev-<cmd>` binaries found on the path.
use vstd::prelude::*;
use crate::text::{chars_of, string_of, has_prefix, starts_with, str_eq};

verus! {

/// The prefix of a plugin binary's name.
pub const PLUGIN_PREFIX: &'static str = "iris-agentic-dev-";

/// The command a file name offers as a plugin: its name after the prefix.
pub open spec fn plugin_command_s(file_name: Seq<char>) -> Option<Seq<char>> {
    if has_prefix(file_name, PLUGIN_PREFIX@) {
        Some(file_name.skip(PLUGIN_PREFIX@.len() as int))
    } else {
        None
    }
}

/// The command a file name offers as a plugin, if it is one.
pub fn plugin_command(file_name: &str) -> (r: Option<String>)
    ensures
        match r {
            Some(c) => plugin_command_s(file_name@) == Some(c@),
            None => plugin_command_s(file_name@) is None,
        },
{
    if starts_with(file_name, PLUGIN_PREFIX) {
        let v = chars_of(file_name);
        let p = chars_of(PLUGIN_PREFIX);
        Some(string_of(&v, p.len(), v.len()))
    } else {
        None
    }
}

/// The binary a plugin command runs.
pub fn plugin_binary(cmd: &str) -> (r: String)
    ensures
        r@ == PLUGIN_PREFIX@ + cmd@,
{
    let mut r = String::from_str(PLUGIN_PREFIX);
    r.append(cmd);
    r
}

/// The message for a command that is neither built in nor a plugin.
pub fn unknown_command_msg(cmd: &str) -> (r: String)
    ensures
        r@ == "iris-agentic-dev: unknown command '"@ + cmd@
            + "'\nRun `iris-agentic-dev --help` for available commands."@,
{
    let mut r = String::from_str("iris-agentic-dev: unknown command '");
    r.append(cmd);
    r.append("'\nRun `iris-agentic-dev --help` for available commands.");
    r
}

/// `Vec::dedup_by_key` on the name: of consecutive entries with the same
/// name, only the first stays.
pub open spec fn dedup_names(es: Seq<(Seq<char>, Seq<char>)>) -> Seq<(Seq<char>, Seq<char>)>
    decreases es.len(),
{
    if es.len() == 0 {
        Seq::empty()
    } else {
        let rest = dedup_names(es.drop_last());
        if rest.len() > 0 && rest.last().0 == es.last().0 {
            rest
        } else {
            rest.push(es.last())
        }
    }
}

/// The line listing one plugin: its command and the binary's path.
pub open spec fn plugin_line_s(e: (Seq<char>, Seq<char>)) -> Seq<char> {
    "  "@ + e.0 + " → "@ + e.1
}

/// What `--list-plugins` prints for the plugins found, sorted by command and
/// then path: a line saying none were found, or a heading and one line per
/// command, for the first path found for it.
pub open spec fn plugin_listing_s(es: Seq<(Seq<char>, Seq<char>)>) -> Seq<Seq<char>> {
    let kept = dedup_names(es);
    if kept.len() == 0 {
        seq!["No iris-agentic-dev-* plugins found on PATH."@]
    } else {
        seq!["Discovered plugins:"@] + Seq::new(kept.len(), |i: int| plugin_line_s(kept[i]))
    }
}

/// The views of (command, path) pairs.
pub open spec fn entry_views(v: Seq<(String, String)>) -> Seq<(Seq<char>, Seq<char>)> {
    Seq::new(v.len(), |i: int| (v[i].0@, v[i].1@))
}

/// The lines `--list-plugins` prints for the plugins found (see
/// `plugin_listing_s`); `sorted` holds each plugin's command and path, in the
/// order of the command and then of the path.
pub fn plugin_listing(sorted: &Vec<(String, String)>) -> (r: Vec<String>)
    ensures
        r@.map_values(|s: String| s@) == plugin_listing_s(entry_views(sorted@)),
{
    let ghost es = entry_views(sorted@);
    let mut kept: Vec<(String, String)> = Vec::new();
    let mut i: usize = 0;
    while i < sorted.len()
        invariant
            es == entry_views(sorted@),
            0 <= i <= sorted@.len(),
            entry_views(kept@) == dedup_names(es.take(i as int)),
        decreases sorted.len() - i,
    {
        proof {
            assert(es.take(i + 1).drop_last() == es.take(i as int));
            assert(es.take(i + 1).last() == es[i as int]);
        }
        let n = kept.len();
        let dup = n > 0 && str_eq(kept[n - 1].0.as_str(), sorted[i].0.as_str());
        if !dup {
            let ghost before = entry_views(kept@);
            kept.push((sorted[i].0.clone(), sorted[i].1.clone()));
            proof {
                assert(entry_views(kept@) =~= before.push(es[i as int]));
            }
        }
        i = i + 1;
    }
    proof {
        assert(es.take(es.len() as int) == es);
    }
    let ghost kv = entry_views(kept@);
    let mut lines: Vec<String> = Vec::new();
    if kept.len() == 0 {
        lines.push(String::from_str("No iris-agentic-dev-* plugins found on PATH."));
        proof {
            assert(lines@.map_values(|s: String| s@) =~= plugin_listing_s(es));
        }
        return lines;
    }
    lines.push(String::from_str("Discovered plugins:"));
    let mut j: usize = 0;
    while j < kept.len()
        invariant
            kv == entry_views(kept@),
            kv == dedup_names(es),
            0 <= j <= kept@.len(),
            lines@.len() == j + 1,
            lines@[0]@ == "Discovered plugins:"@,
            forall|k: int| 0 <= k < j ==> #[trigger] lines@[k + 1]@ == plugin_line_s(kv[k]),
        decreases kept.len() - j,
    {
        let mut line = String::from_str("  ");
        line.append(kept[j].0.as_str());
        line.append(" → ");
        line.append(kept[j].1.as_str());
        lines.push(line);
        j = j + 1;
    }
    proof {
        let want = plugin_listing_s(es);
        let got = lines@.map_values(|s: String| s@);
        assert(got.len() == want.len());
        assert forall|k: int| 0 <= k < got.len() implies got[k] == want[k] by {
            if k > 0 {
                assert(lines@[(k - 1) + 1]@ == plugin_line_s(kv[k - 1]));
            }
        }
        assert(got =~= want);
    }
    lines
}

} // verus!
