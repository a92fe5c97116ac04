//! Owning application id and title read from a workshop item's page markup.
use vstd::prelude::*;
use vstd::string::StrSliceExecFns;
use vstd::string::StringExecFns;
use crate::text::{chars_of, find_chars, find_from, lemma_find_from_in_range, trim, trimmed};

verus! {

/// What a workshop page tells about one item.
#[derive(Debug, Clone, PartialEq, Eq)]
pub struct WorkshopMetadata {
    pub app_id: String,
    pub title: String,
    pub file_id: String,
}

/// The id of the owning application as the attribute `data-appid="..."` gives it: the text
/// between the attribute's first occurrence and the next double quote.
pub open spec fn quoted_appid(h: Seq<char>) -> Option<Seq<char>> {
    let marker = "data-appid=\""@;
    match find_from(h, marker, 0) {
        Some(i) => match find_from(h, "\""@, i + marker.len()) {
            Some(e) => Some(h.subrange(i + marker.len(), e)),
            None => None,
        },
        None => None,
    }
}

/// The first index at or after `k` that holds no ASCII digit (or the length of `h`).
pub open spec fn digits_end(h: Seq<char>, k: int) -> int
    decreases h.len() - k,
{
    if 0 <= k < h.len() && '0' <= h[k] && h[k] <= '9' {
        digits_end(h, k + 1)
    } else {
        k
    }
}

/// The id of the owning application as a link path `/app/<digits>` gives it: the digits
/// right after the first occurrence of `/app/`, if there is at least one.
pub open spec fn path_appid(h: Seq<char>) -> Option<Seq<char>> {
    let marker = "/app/"@;
    match find_from(h, marker, 0) {
        Some(j) => {
            let start = j + marker.len();
            let end = digits_end(h, start);
            if end > start {
                Some(h.subrange(start, end))
            } else {
                None
            }
        },
        None => None,
    }
}

/// The owning application id: from the attribute, else from the link path.
pub open spec fn appid_of(h: Seq<char>) -> Option<Seq<char>> {
    match quoted_appid(h) {
        Some(a) => Some(a),
        None => path_appid(h),
    }
}

/// The title: the trimmed text after the `>` that closes the element of class
/// `workshopItemTitle`, up to the next `</div>`.
pub open spec fn title_of(h: Seq<char>) -> Option<Seq<char>> {
    match find_from(h, "class=\"workshopItemTitle\""@, 0) {
        Some(i) => match find_from(h, ">"@, i) {
            Some(g) => match find_from(h, "</div>"@, g + 1) {
                Some(e) => Some(trim(h.subrange(g + 1, e))),
                None => None,
            },
            None => None,
        },
        None => None,
    }
}

fn extract_appid(html: &str, cs: &Vec<char>) -> (r: Option<String>)
    requires
        cs@ == html@,
    ensures
        r matches Some(a) ==> appid_of(html@) == Some(a@),
        r is None ==> appid_of(html@) is None,
{
    let n = cs.len();
    let marker = chars_of("data-appid=\"");
    let quote = chars_of("\"");
    if let Some(i) = find_chars(cs, &marker, 0) {
        proof {
            lemma_find_from_in_range(cs@, marker@, 0);
        }
        let start = i + marker.len();
        if let Some(e) = find_chars(cs, &quote, start) {
            proof {
                lemma_find_from_in_range(cs@, quote@, start as int);
            }
            return Some(html.substring_char(start, e).to_owned());
        }
    }
    let path = chars_of("/app/");
    match find_chars(cs, &path, 0) {
        Some(j) => {
            proof {
                lemma_find_from_in_range(cs@, path@, 0);
            }
            let start = j + path.len();
            let mut end: usize = start;
            while end < cs.len() && '0' <= cs[end] && cs[end] <= '9'
                invariant
                    start <= end <= cs@.len(),
                    digits_end(cs@, start as int) == digits_end(cs@, end as int),
                decreases cs@.len() - end,
            {
                end = end + 1;
            }
            if end > start {
                Some(html.substring_char(start, end).to_owned())
            } else {
                None
            }
        },
        None => None,
    }
}

fn extract_title(html: &str, cs: &Vec<char>) -> (r: Option<String>)
    requires
        cs@ == html@,
    ensures
        r matches Some(t) ==> title_of(html@) == Some(t@),
        r is None ==> title_of(html@) is None,
{
    let n = cs.len();
    let marker = chars_of("class=\"workshopItemTitle\"");
    let gt = chars_of(">");
    let close = chars_of("</div>");
    let i = match find_chars(cs, &marker, 0) {
        Some(i) => i,
        None => {
            return None;
        },
    };
    let g = match find_chars(cs, &gt, i) {
        Some(g) => g,
        None => {
            return None;
        },
    };
    proof {
        lemma_find_from_in_range(cs@, gt@, i as int);
        reveal_strlit(">");
    }
    let e = match find_chars(cs, &close, g + 1) {
        Some(e) => e,
        None => {
            return None;
        },
    };
    proof {
        lemma_find_from_in_range(cs@, close@, g + 1);
    }
    Some(trimmed(html.substring_char(g + 1, e)))
}

/// Reads the owning application id and the title of workshop item `file_id` from its page.
pub fn parse_workshop_html(html: &str, file_id: &str) -> (r: Result<WorkshopMetadata, String>)
    ensures
        r is Ok <==> appid_of(html@) is Some && title_of(html@) is Some,
        r matches Ok(m) ==> {
            &&& appid_of(html@) == Some(m.app_id@)
            &&& title_of(html@) == Some(m.title@)
            &&& m.file_id@ == file_id@
        },
        r matches Err(e) ==> e@ == (if appid_of(html@) is None {
            "Failed to extract AppID"@
        } else {
            "Failed to extract Title"@
        }),
{
    let cs = chars_of(html);
    let app_id = match extract_appid(html, &cs) {
        Some(a) => a,
        None => {
            return Err(String::from_str("Failed to extract AppID"));
        },
    };
    let title = match extract_title(html, &cs) {
        Some(t) => t,
        None => {
            return Err(String::from_str("Failed to extract Title"));
        },
    };
    Ok(WorkshopMetadata { app_id, title, file_id: file_id.to_owned() })
}

} // verus!
