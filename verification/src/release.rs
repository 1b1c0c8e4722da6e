//! Reading the latest release tag out of the release service's answer.

use vstd::prelude::*;
use crate::text::{
    chars_of, find_chars, find_text, first_index_of, lemma_first_index_of, push_str, slice_chars,
    string_of, trim_start, trim_start_chars,
};

verus! {

/// The release tag an answer of the release service names: the string
/// after the first `"tag_name"` key and its `:`, white space around the
/// colon allowed; `None` when any of that is missing or the tag is empty.
/// Release tags are plain `vX.Y.Z` strings, never escaped.
pub open spec fn tag_name_of(json: Seq<char>) -> Option<Seq<char>> {
    let key = "\"tag_name\""@;
    match find_text(json, key) {
        None => None,
        Some(i) => {
            let after_key = trim_start(json.skip(i + key.len()));
            if after_key.len() > 0 && after_key[0] == ':' {
                let after_colon = trim_start(after_key.skip(1));
                if after_colon.len() > 0 && after_colon[0] == '"' {
                    let value = after_colon.skip(1);
                    let end = first_index_of(value, '"');
                    if 0 < end < value.len() {
                        Some(value.take(end))
                    } else {
                        None
                    }
                } else {
                    None
                }
            } else {
                None
            }
        },
    }
}

/// Pulls `tag_name` out of the API response without a JSON parser.
pub fn parse_tag_name(json: &str) -> (r: Option<String>)
    ensures
        match r {
            Some(tag) => tag_name_of(json@) == Some(tag@),
            None => tag_name_of(json@) is None,
        },
{
    let chars = chars_of(json);
    let key = chars_of("\"tag_name\"");
    let at = match find_chars(chars.as_slice(), key.as_slice()) {
        Some(at) => at,
        None => return None,
    };
    proof {
        assert(find_text(chars@, key@) == Some(at as int));
        crate::text::lemma_find_text(chars@, key@);
    }
    let klen = key.len();
    let clen = chars.len();
    assert(at + klen <= clen);
    let rest = slice_chars(chars.as_slice(), at + klen, clen);
    proof {
        assert(rest@ =~= json@.skip(at + key@.len()));
    }
    let after_key = trim_start_chars(rest.as_slice());
    if after_key.len() == 0 || after_key[0] != ':' {
        return None;
    }
    let colon_rest = slice_chars(after_key.as_slice(), 1, after_key.len());
    proof {
        assert(colon_rest@ =~= after_key@.skip(1));
    }
    let after_colon = trim_start_chars(colon_rest.as_slice());
    if after_colon.len() == 0 || after_colon[0] != '"' {
        return None;
    }
    let value = slice_chars(after_colon.as_slice(), 1, after_colon.len());
    proof {
        assert(value@ =~= after_colon@.skip(1));
        lemma_first_index_of(value@, '"');
    }
    let mut end: usize = 0;
    while end < value.len() && value[end] != '"'
        invariant
            end <= value@.len(),
            forall|q: int| 0 <= q < end ==> value@[q] != '"',
        decreases value@.len() - end,
    {
        end += 1;
    }
    proof {
        let f = first_index_of(value@, '"');
        if f < end {
            assert(value@[f] == '"');
        }
        if end < f {
            assert(value@[end as int] == '"');
        }
        assert(end == f);
    }
    if end == 0 || end >= value.len() {
        return None;
    }
    let tag = slice_chars(value.as_slice(), 0, end);
    proof {
        assert(tag@ =~= value@.take(end as int));
    }
    Some(string_of(tag.as_slice()))
}

/// Where the page of a release tag lives: the tag goes after this prefix.
pub const RELEASE_TAG_URL: &'static str = "https://github.com/filegram/filegram-desktop/releases/tag/";

/// The page of the release `tag`, which the footer link opens.
pub fn release_url(tag: &str) -> (url: String)
    ensures
        url@ == RELEASE_TAG_URL@ + tag@,
{
    let mut out = chars_of(RELEASE_TAG_URL);
    push_str(&mut out, tag);
    string_of(out.as_slice())
}

} // verus!
