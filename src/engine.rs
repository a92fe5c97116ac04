//! What the download engine is told, and what its output lines report.
use vstd::prelude::*;
use vstd::string::StrSliceExecFns;
use vstd::string::StringExecFns;
use crate::text::{chars_of, find_chars, find_from, lemma_find_from_in_range, trim, trimmed};

verus! {

/// The source reference split at its first `:` into owning application id and content id;
/// without a `:` it is a bare content id.
pub open spec fn ids_of(s: Seq<char>) -> (Option<Seq<char>>, Seq<char>) {
    match find_from(s, ":"@, 0) {
        Some(k) => (Some(s.take(k)), s.skip(k + 1)),
        None => (None, s),
    }
}

/// The engine script: install into `dir`, log in anonymously, fetch the workshop item
/// `<owner> <content>` or update and validate application `content`, then quit.
pub open spec fn script_lines(dir: Seq<char>, owner: Option<Seq<char>>, content: Seq<char>) -> Seq<Seq<char>> {
    seq![
        "force_install_dir \""@ + dir + "\""@,
        "login anonymous"@,
        match owner {
            Some(g) => "workshop_download_item "@ + g + " "@ + content,
            None => "app_update "@ + content + " validate"@,
        },
        "quit"@,
    ]
}

/// The progress text of an engine output line: the text after the first `progress:` up to
/// the next `%` (or the next `progress:`, or the end), trimmed; `None` without the marker.
pub open spec fn progress_field_of(l: Seq<char>) -> Option<Seq<char>> {
    let m = "progress:"@;
    match find_from(l, m, 0) {
        Some(k) => {
            let a = k + m.len();
            let b = match find_from(l, m, a) {
                Some(j) => j,
                None => l.len() as int,
            };
            let part = l.subrange(a, b);
            let c = match find_from(part, "%"@, 0) {
                Some(p) => p,
                None => part.len() as int,
            };
            Some(trim(part.take(c)))
        },
        None => None,
    }
}

/// The strings' views, in order.
pub open spec fn views(v: Seq<String>) -> Seq<Seq<char>> {
    v.map_values(|x: String| x@)
}

/// Splits a source reference into owning application id (if any) and content id.
pub fn parse_ids(steam_id: &str) -> (r: (Option<String>, String))
    ensures
        (match r.0 {
            Some(g) => Some(g@),
            None => None,
        }, r.1@) == ids_of(steam_id@),
{
    let cs = chars_of(steam_id);
    let n = cs.len();
    let colon = chars_of(":");
    match find_chars(&cs, &colon, 0) {
        Some(k) => {
            proof {
                lemma_find_from_in_range(cs@, colon@, 0);
                reveal_strlit(":");
            }
            (Some(steam_id.substring_char(0, k).to_owned()), steam_id.substring_char(k + 1, n).to_owned())
        },
        None => (None, steam_id.to_owned()),
    }
}

/// The engine script for one job, one command per line.
pub fn build_commands(dir: &str, owner: Option<&str>, content: &str) -> (r: Vec<String>)
    ensures
        views(r@) == script_lines(
            dir@,
            match owner {
                Some(g) => Some(g@),
                None => None,
            },
            content@,
        ),
{
    let mut out: Vec<String> = Vec::new();
    out.push(String::from_str("force_install_dir \"").concat(dir).concat("\""));
    out.push(String::from_str("login anonymous"));
    match owner {
        Some(g) => {
            out.push(String::from_str("workshop_download_item ").concat(g).concat(" ").concat(content));
        },
        None => {
            out.push(String::from_str("app_update ").concat(content).concat(" validate"));
        },
    }
    out.push(String::from_str("quit"));
    assert(views(out@) =~= script_lines(
        dir@,
        match owner {
            Some(g) => Some(g@),
            None => None,
        },
        content@,
    ));
    out
}

/// The progress text of an engine output line, ready to be read as a number.
pub fn progress_field(line: &str) -> (r: Option<String>)
    ensures
        r matches Some(t) ==> progress_field_of(line@) == Some(t@),
        r is None ==> progress_field_of(line@) is None,
{
    let cs = chars_of(line);
    let n = cs.len();
    let m = chars_of("progress:");
    let k = match find_chars(&cs, &m, 0) {
        Some(k) => k,
        None => {
            return None;
        },
    };
    proof {
        lemma_find_from_in_range(cs@, m@, 0);
    }
    let a = k + m.len();
    let b = match find_chars(&cs, &m, a) {
        Some(j) => j,
        None => n,
    };
    proof {
        lemma_find_from_in_range(cs@, m@, a as int);
    }
    let part = line.substring_char(a, b);
    let pcs = chars_of(part);
    let pct = chars_of("%");
    let c = match find_chars(&pcs, &pct, 0) {
        Some(p) => p,
        None => pcs.len(),
    };
    proof {
        lemma_find_from_in_range(pcs@, pct@, 0);
    }
    Some(trimmed(part.substring_char(0, c)))
}

} // verus!
