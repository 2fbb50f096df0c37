//! Search order across tunnel-address sources.
//!
//! The detector asks the sources in fixed priority, first hit wins: the
//! already cached address, the in-memory log scrollback, the candidate
//! configuration texts (TOML as raw text, JSON structurally when it
//! parses), and finally the texts of recently modified files.  Reading
//! files is the embedding application's business; the texts come in as
//! plain values.

use vstd::prelude::*;
use crate::json_tree::{
    is_tree_capture, json_parses, json_tree_of, search_tunnel_url_in_json, tree_matches,
};
use crate::text::lines_of;
use crate::tunnel::{
    detect_in_text, is_first_line_capture, is_text_capture, search_tunnel_url_in_logs,
    search_tunnel_url_in_toml, some_line_matches, text_matches,
};

verus! {

/// How many seconds old a file may be to count as recently modified.
pub const RECENT_FILE_WINDOW_SECS: u64 = 120;

/// The largest file, in bytes, read while scanning recent files.
pub const MAX_RECENT_FILE_BYTES: u64 = 50_000;

/// The text of one candidate configuration file.
pub struct ConfigText {
    /// The file's whole content.
    pub content: String,
    /// Whether the file is JSON (searched structurally when it parses);
    /// otherwise it is treated as raw text.
    pub json: bool,
}

/// A configuration text yields an address: its raw text matches, or it
/// is JSON that parses and some string of the document matches.
pub open spec fn config_matches(c: ConfigText) -> bool {
    text_matches(c.content@) || (c.json && json_parses(c.content@) && tree_matches(
        json_tree_of(c.content@),
    ))
}

/// `u` is the address a configuration text yields: the raw-text capture
/// when the raw text matches, else the capture of the parsed document.
pub open spec fn is_config_capture(c: ConfigText, u: Seq<char>) -> bool {
    if text_matches(c.content@) {
        is_text_capture(c.content@, u)
    } else {
        c.json && json_parses(c.content@) && is_tree_capture(json_tree_of(c.content@), u)
    }
}

/// Whether a file is a candidate for the recent-files source: modified
/// within the window and not above the size cutoff.  Both bounds are
/// heuristic defaults, not load-bearing constants.
pub fn is_recent_candidate(now_secs: u64, modified_secs: u64, size: u64, window_secs: u64, max_bytes: u64) -> (r: bool)
    ensures
        r == (modified_secs + window_secs > now_secs && size <= max_bytes),
{
    let old_enough = if now_secs >= window_secs {
        modified_secs > now_secs - window_secs
    } else {
        true
    };
    old_enough && size <= max_bytes
}

/// Some configuration text of the sequence yields an address.
pub open spec fn some_config_matches(cs: Seq<ConfigText>) -> bool {
    exists|i: int| 0 <= i < cs.len() && config_matches(#[trigger] cs[i])
}

/// `u` is the address of the first configuration text that yields one.
pub open spec fn is_first_config_capture(cs: Seq<ConfigText>, u: Seq<char>) -> bool {
    exists|i: int|
        {
            &&& 0 <= i < cs.len()
            &&& config_matches(#[trigger] cs[i])
            &&& is_config_capture(cs[i], u)
            &&& forall|j: int| 0 <= j < i ==> !config_matches(cs[j])
        }
}

/// Ask the sources in priority order for a tunnel address: the cached
/// address, then the log scrollback, then the configuration texts in
/// their given order, then the recent-file texts.  The first hit wins
/// and the rest are not consulted; each tier's result is the capture of
/// its first matching text.
#[verifier::loop_isolation(false)]
pub fn detect_tunnel_url(
    cached: &Option<String>,
    logs: &Vec<String>,
    configs: &Vec<ConfigText>,
    recents: &Vec<String>,
) -> (r: Option<String>)
    ensures
        cached matches Some(c) ==> (r matches Some(u) && u@ == c@),
        (cached is None && some_line_matches(lines_of(logs@))) ==> (r matches Some(u)
            && is_first_line_capture(lines_of(logs@), u@)),
        (cached is None && !some_line_matches(lines_of(logs@)) && some_config_matches(configs@))
            ==> (r matches Some(u) && is_first_config_capture(configs@, u@)),
        (cached is None && !some_line_matches(lines_of(logs@)) && !some_config_matches(configs@)
            && some_line_matches(lines_of(recents@))) ==> (r matches Some(u)
            && is_first_line_capture(lines_of(recents@), u@)),
        r is None ==> (cached is None && !some_line_matches(lines_of(logs@))
            && !some_config_matches(configs@) && !some_line_matches(lines_of(recents@))),
{
    match cached {
        Some(c) => {
            return Some(c.clone());
        },
        None => {},
    }
    match search_tunnel_url_in_logs(logs) {
        Some(u) => {
            return Some(u);
        },
        None => {},
    }
    let mut i: usize = 0;
    while i < configs.len()
        invariant
            i <= configs@.len(),
            forall|j: int| 0 <= j < i ==> !config_matches(#[trigger] configs@[j]),
        decreases configs@.len() - i,
    {
        let found = if configs[i].json {
            search_tunnel_url_in_json(configs[i].content.as_str())
        } else {
            search_tunnel_url_in_toml(configs[i].content.as_str())
        };
        match found {
            Some(u) => {
                proof {
                    assert(config_matches(configs@[i as int]));
                    assert(is_config_capture(configs@[i as int], u@));
                    assert(is_first_config_capture(configs@, u@));
                }
                return Some(u);
            },
            None => {
                proof {
                    assert(!config_matches(configs@[i as int]));
                }
            },
        }
        i = i + 1;
    }
    let mut k: usize = 0;
    while k < recents.len()
        invariant
            k <= recents@.len(),
            forall|j: int| 0 <= j < k ==> !text_matches(#[trigger] lines_of(recents@)[j]),
        decreases recents@.len() - k,
    {
        match detect_in_text(recents[k].as_str()) {
            Some(u) => {
                proof {
                    assert(text_matches(lines_of(recents@)[k as int]));
                    assert(is_text_capture(lines_of(recents@)[k as int], u@));
                    assert(is_first_line_capture(lines_of(recents@), u@));
                }
                return Some(u);
            },
            None => {},
        }
        k = k + 1;
    }
    None
}

} // verus!
