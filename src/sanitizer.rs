//! Turning a display name into a directory name.
use vstd::prelude::*;
use vstd::string::StrSliceExecFns;
use vstd::string::StringExecFns;
use crate::text::chars_of;

verus! {

/// The longest directory name, in characters.
pub const MAX_NAME_CHARS: usize = 200;

/// Characters that stand in a directory name as they are.
pub open spec fn kept(c: char) -> bool {
    ('a' <= c && c <= 'z') || ('A' <= c && c <= 'Z') || ('0' <= c && c <= '9') || c == '-'
        || c == '_' || c == ' ' || c == '.'
}

/// A character as it stands in a directory name: itself if kept, else `_`.
pub open spec fn clean_char(c: char) -> char {
    if kept(c) {
        c
    } else {
        '_'
    }
}

/// Every character of `s` cleaned.
pub open spec fn cleaned(s: Seq<char>) -> Seq<char> {
    s.map_values(|c: char| clean_char(c))
}

/// The words of `s` (runs of characters other than a space) joined by single spaces.
pub open spec fn collapse(s: Seq<char>) -> Seq<char>
    decreases s.len(),
{
    if s.len() == 0 {
        Seq::empty()
    } else {
        let prev = collapse(s.drop_last());
        let c = s.last();
        if c == ' ' {
            prev
        } else if s.len() >= 2 && s[s.len() - 2] == ' ' && prev.len() > 0 {
            prev + seq![' ', c]
        } else {
            prev.push(c)
        }
    }
}

/// The directory name for a display name: cleaned, words joined by single spaces, at most
/// `MAX_NAME_CHARS` characters, and `unnamed_item` when nothing is left.
pub open spec fn sanitized(name: Seq<char>) -> Seq<char> {
    let c = collapse(cleaned(name));
    if c.len() == 0 {
        "unnamed_item"@
    } else if c.len() > MAX_NAME_CHARS {
        c.take(MAX_NAME_CHARS as int)
    } else {
        c
    }
}

fn is_kept(c: char) -> (r: bool)
    ensures
        r == kept(c),
{
    ('a' <= c && c <= 'z') || ('A' <= c && c <= 'Z') || ('0' <= c && c <= '9') || c == '-'
        || c == '_' || c == ' ' || c == '.'
}

/// A name that is safe as a single directory name.
pub fn sanitize_name(name: &str) -> (r: String)
    ensures
        r@ == sanitized(name@),
{
    let cs = chars_of(name);
    let mut out = String::new();
    let mut i: usize = 0;
    while i < cs.len()
        invariant
            cs@ == name@,
            i <= cs@.len(),
            out@ == collapse(cleaned(name@).subrange(0, i as int)),
        decreases cs@.len() - i,
    {
        let c = cs[i];
        let k = is_kept(c);
        let ghost cl = cleaned(name@);
        proof {
            let sub = cl.subrange(0, i + 1);
            assert(sub.drop_last() =~= cl.subrange(0, i as int));
            assert(sub.last() == clean_char(c));
            if i >= 1 {
                assert(sub[i - 1] == cl[i - 1]);
            }
        }
        let ghost before = out@;
        if c == ' ' {
            assert(collapse(cl.subrange(0, i + 1)) == before);
        } else {
            let prev_space = i >= 1 && cs[i - 1] == ' ';
            let started = out.as_str().unicode_len() > 0;
            if prev_space && started {
                out.append(" ");
            }
            let ghost mid = out@;
            if k {
                out.append(name.substring_char(i, i + 1));
                assert(name@.subrange(i as int, i + 1) =~= seq![c]);
            } else {
                proof {
                    reveal_strlit("_");
                }
                out.append("_");
            }
            assert(out@ == mid.push(clean_char(c)));
            proof {
                let sub = cl.subrange(0, i + 1);
                if i >= 1 {
                    assert(prev_space == (sub[sub.len() - 2] == ' '));
                }
                if prev_space && started {
                    reveal_strlit(" ");
                    assert(mid == before.push(' '));
                    assert(out@ =~= before + seq![' ', clean_char(c)]);
                } else {
                    assert(mid == before);
                }
                assert(out@ == collapse(sub));
            }
        }
        i = i + 1;
    }
    assert(cleaned(name@).subrange(0, cs@.len() as int) =~= cleaned(name@));
    let n = out.as_str().unicode_len();
    if n == 0 {
        String::from_str("unnamed_item")
    } else if n > MAX_NAME_CHARS {
        out.as_str().substring_char(0, MAX_NAME_CHARS).to_owned()
    } else {
        out
    }
}

} // verus!
