//! Search support: the targets handed to the external tool for video,
//! channel and playlist searches, the parsing of printed title/URL
//! pairs, and the labels of search results.

use vstd::prelude::*;

use crate::text::contains_seq;
use crate::text::contains_substring;
use crate::text::decimal_of;
use crate::text::u64_to_string;
use crate::video::VideoInfo;
use crate::video::VideoInfoView;
use vstd::utf8::encode_utf8;

verus! {

/// Bytes that URL encoding passes through unchanged: ASCII letters and
/// digits, `-`, `.`, `_` and `~`.
pub open spec fn is_url_unreserved(b: u8) -> bool {
    (48 <= b && b <= 57) || (65 <= b && b <= 90) || (97 <= b && b <= 122) || b == 45 || b == 46
        || b == 95 || b == 126
}

/// The upper-case hex digit for a value below sixteen.
pub open spec fn hex_digit(d: u8) -> char {
    if d < 10 {
        ((48 + d) as u8) as char
    } else {
        ((55 + d) as u8) as char
    }
}

/// Percent-encoding of a byte sequence: unreserved bytes stay, every
/// other byte becomes `%` and two upper-case hex digits.
pub open spec fn url_encode_bytes(bs: Seq<u8>) -> Seq<char>
    decreases bs.len(),
{
    if bs.len() == 0 {
        Seq::empty()
    } else {
        (if is_url_unreserved(bs[0]) {
            seq![bs[0] as char]
        } else {
            seq!['%', hex_digit(bs[0] / 16), hex_digit(bs[0] % 16)]
        }) + url_encode_bytes(bs.drop_first())
    }
}

/// Relies on urlencoding::encode: percent-encodes every byte of the
/// UTF-8 text except ASCII alphanumerics and `-`, `.`, `_`, `~`, writing
/// upper-case hex digits.
#[verifier::external_body]
fn url_encode(s: &str) -> (r: String)
    ensures
        r@ == url_encode_bytes(encode_utf8(s@)),
{
    urlencoding::encode(s).into_owned()
}

/// What is searched for.
#[derive(Debug, PartialEq, Eq, Clone, Copy)]
pub enum SearchMode {
    Video,
    Channel,
    Playlist,
}

/// Which listing of a channel is browsed.
#[derive(Debug, PartialEq, Eq, Clone, Copy)]
pub enum ChannelTab {
    Videos,
    Playlists,
    Releases,
}

/// The target argument of one search: a counted video search, or the
/// result page filtered to channels or playlists with the query
/// percent-encoded.
pub open spec fn search_target_spec(mode: SearchMode, query: Seq<char>, end: nat) -> Seq<char> {
    match mode {
        SearchMode::Video => "ytsearch"@ + decimal_of(end) + ":"@ + query,
        SearchMode::Channel => "https://www.youtube.com/results?search_query="@
            + url_encode_bytes(encode_utf8(query)) + "&sp=EgIQAg%3D%3D"@,
        SearchMode::Playlist => "https://www.youtube.com/results?search_query="@
            + url_encode_bytes(encode_utf8(query)) + "&sp=EgIQAw%3D%3D"@,
    }
}

/// Builds the search target for a query; `end` is the last result index
/// asked of a plain video search.
pub fn search_target(mode: SearchMode, query: &String, end: u32) -> (r: String)
    ensures
        r@ == search_target_spec(mode, query@, end as nat),
{
    match mode {
        SearchMode::Video => {
            let mut s = String::from_str("ytsearch");
            let num = u64_to_string(end as u64);
            s.append(num.as_str());
            s.append(":");
            s.append(query.as_str());
            proof {
                assert(s@ =~= search_target_spec(SearchMode::Video, query@, end as nat));
            }
            s
        },
        SearchMode::Channel => {
            let mut s = String::from_str("https://www.youtube.com/results?search_query=");
            let enc = url_encode(query.as_str());
            s.append(enc.as_str());
            s.append("&sp=EgIQAg%3D%3D");
            proof {
                assert(s@ =~= search_target_spec(SearchMode::Channel, query@, end as nat));
            }
            s
        },
        SearchMode::Playlist => {
            let mut s = String::from_str("https://www.youtube.com/results?search_query=");
            let enc = url_encode(query.as_str());
            s.append(enc.as_str());
            s.append("&sp=EgIQAw%3D%3D");
            proof {
                assert(s@ =~= search_target_spec(SearchMode::Playlist, query@, end as nat));
            }
            s
        },
    }
}

/// `url` without one trailing slash.
pub open spec fn without_trailing_slash(url: Seq<char>) -> Seq<char> {
    if url.len() > 0 && url.last() == '/' {
        url.drop_last()
    } else {
        url
    }
}

/// `url` without one trailing slash, then the tab's suffix.
pub open spec fn channel_tab_url_spec(url: Seq<char>, tab: ChannelTab) -> Seq<char> {
    without_trailing_slash(url) + (match tab {
        ChannelTab::Videos => "/videos"@,
        ChannelTab::Playlists => "/playlists"@,
        ChannelTab::Releases => "/releases"@,
    })
}

/// The address of one listing of a channel.
pub fn channel_tab_url(url: &String, tab: ChannelTab) -> (r: String)
    ensures
        r@ == channel_tab_url_spec(url@, tab),
{
    let n = url.as_str().unicode_len();
    let mut s: String;
    if n > 0 && url.as_str().get_char(n - 1) == '/' {
        s = String::from_str(url.as_str().substring_char(0, n - 1));
        proof {
            assert(url@.subrange(0, n - 1) =~= url@.drop_last());
        }
    } else {
        s = url.clone();
    }
    match tab {
        ChannelTab::Videos => s.append("/videos"),
        ChannelTab::Playlists => s.append("/playlists"),
        ChannelTab::Releases => s.append("/releases"),
    }
    s
}

/// The listing address a chosen channel action leads to directly, if
/// any: the playlist and release actions browse instead.
pub open spec fn channel_action_suffix(choice: Seq<char>) -> Option<Seq<char>> {
    if choice == "Videos"@ {
        Some("/videos"@)
    } else if choice == "Shorts"@ {
        Some("/shorts"@)
    } else if choice == "Live"@ {
        Some("/streams"@)
    } else {
        None
    }
}

/// The address fetched for a chosen channel action, where the action
/// fetches one directly.
pub fn channel_action_url(url: &String, choice: &str) -> (r: Option<String>)
    ensures
        match r {
            Some(u) => channel_action_suffix(choice@) matches Some(suffix) && u@
                == without_trailing_slash(url@) + suffix,
            None => channel_action_suffix(choice@) is None,
        },
{
    let videos_word = String::from_str("Videos");
    let shorts_word = String::from_str("Shorts");
    let live_word = String::from_str("Live");
    let choice_s = String::from_str(choice);
    let suffix: &str = if choice_s == videos_word {
        "/videos"
    } else if choice_s == shorts_word {
        "/shorts"
    } else if choice_s == live_word {
        "/streams"
    } else {
        return None;
    };
    let n = url.as_str().unicode_len();
    let mut s: String;
    if n > 0 && url.as_str().get_char(n - 1) == '/' {
        s = String::from_str(url.as_str().substring_char(0, n - 1));
        proof {
            assert(url@.subrange(0, n - 1) =~= url@.drop_last());
        }
    } else {
        s = url.clone();
    }
    s.append(suffix);
    Some(s)
}

/// The paging state of the search view: where the next window starts
/// and whether windows keep loading by themselves.
pub struct SearchPager {
    pub offset: u32,
    pub auto_load: bool,
}

impl SearchPager {
    /// A fresh view: the first window, no automatic loading.
    pub fn new() -> (r: SearchPager)
        ensures
            r.offset == 1,
            !r.auto_load,
    {
        SearchPager { offset: 1, auto_load: false }
    }

    /// A new search starts over at the first window.
    pub fn start_search(&mut self)
        ensures
            final(self).offset == 1,
            !final(self).auto_load,
    {
        self.offset = 1;
        self.auto_load = false;
    }

    /// One more window is asked for by hand.
    pub fn load_more(&mut self)
        requires
            old(self).offset + 20 <= u32::MAX,
        ensures
            final(self).offset == old(self).offset + 20,
            !final(self).auto_load,
    {
        self.offset = self.offset + 20;
        self.auto_load = false;
    }

    /// Windows are to keep loading until one comes back empty.
    pub fn load_all(&mut self)
        requires
            old(self).offset + 20 <= u32::MAX,
        ensures
            final(self).offset == old(self).offset + 20,
            final(self).auto_load,
    {
        self.offset = self.offset + 20;
        self.auto_load = true;
    }

    /// One window of results arrived: under automatic loading a
    /// non-empty window advances and fetches the next, and an empty one
    /// stops the loading; otherwise nothing follows.
    pub fn on_results(&mut self, got_results: bool) -> (fetch_next: bool)
        requires
            old(self).offset + 20 <= u32::MAX,
        ensures
            fetch_next == (old(self).auto_load && got_results),
            fetch_next ==> final(self).offset == old(self).offset + 20 && final(self).auto_load,
            !fetch_next ==> final(self).offset == old(self).offset && final(self).auto_load
                == (old(self).auto_load && got_results),
    {
        if self.auto_load {
            if got_results {
                self.offset = self.offset + 20;
                true
            } else {
                self.auto_load = false;
                false
            }
        } else {
            false
        }
    }
}

/// The search invocation: a flattened JSON dump of a window of results,
/// nothing downloaded.
pub open spec fn search_args_spec(target: Seq<char>, start: nat) -> Seq<Seq<char>> {
    seq!["--dump-json"@, "--flat-playlist"@, "--skip-download"@] + (if start > 1 {
        seq!["--playlist-start"@, decimal_of(start)]
    } else {
        Seq::empty()
    }) + seq!["--playlist-end"@, decimal_of(start + 19)] + seq![target]
}

/// Builds the search invocation around a target, windowed to twenty
/// results from `start`.
pub fn build_search_args(target: String, start: u32) -> (r: Vec<String>)
    requires
        start + 19 <= u32::MAX,
    ensures
        r.deep_view() == search_args_spec(target@, start as nat),
{
    let ghost tv = target@;
    let mut r: Vec<String> = Vec::new();
    r.push(String::from_str("--dump-json"));
    r.push(String::from_str("--flat-playlist"));
    r.push(String::from_str("--skip-download"));
    if start > 1 {
        r.push(String::from_str("--playlist-start"));
        r.push(u64_to_string(start as u64));
    }
    r.push(String::from_str("--playlist-end"));
    r.push(u64_to_string((start + 19) as u64));
    r.push(target);
    proof {
        assert(r.deep_view() =~~= search_args_spec(tv, start as nat));
    }
    r
}

/// The invocation that prints a channel listing as title/URL pairs.
pub open spec fn fetch_list_args_spec(url: Seq<char>, releases: bool) -> Seq<Seq<char>> {
    seq![
        "--flat-playlist"@,
        "--print"@,
        "%(title)s:::%(url)s"@,
        channel_tab_url_spec(
            url,
            if releases {
                ChannelTab::Releases
            } else {
                ChannelTab::Playlists
            },
        ),
    ]
}

/// Builds the invocation that lists a channel's playlists or releases.
pub fn build_fetch_list_args(url: &String, releases: bool) -> (r: Vec<String>)
    ensures
        r.deep_view() == fetch_list_args_spec(url@, releases),
{
    let mut r: Vec<String> = Vec::new();
    r.push(String::from_str("--flat-playlist"));
    r.push(String::from_str("--print"));
    r.push(String::from_str("%(title)s:::%(url)s"));
    let tab = if releases {
        ChannelTab::Releases
    } else {
        ChannelTab::Playlists
    };
    r.push(channel_tab_url(url, tab));
    proof {
        assert(r.deep_view() =~~= fetch_list_args_spec(url@, releases));
    }
    r
}

/// The first index where the marker occurs, if anywhere.
pub open spec fn find_marker(s: Seq<char>, pat: Seq<char>) -> Option<int>
    decreases s.len(),
{
    if pat.len() == 0 {
        Some(0)
    } else if s.len() < pat.len() {
        None
    } else if s.take(pat.len() as int) == pat {
        Some(0)
    } else {
        match find_marker(s.drop_first(), pat) {
            Some(i) => Some(i + 1),
            None => None,
        }
    }
}

/// A printed title/URL pair, split at the first `:::` marker.
pub open spec fn title_url_spec(s: Seq<char>) -> Option<(Seq<char>, Seq<char>)> {
    match find_marker(s, ":::"@) {
        Some(i) => Some((s.take(i), s.skip(i + 3))),
        None => None,
    }
}

proof fn lemma_find_marker_at(s: Seq<char>, pat: Seq<char>, k: int)
    requires
        pat.len() > 0,
        0 <= k <= s.len() - pat.len() + 1,
        forall|j: int| 0 <= j < k ==> #[trigger] s.subrange(j, j + pat.len()) != pat,
        k <= s.len() - pat.len() ==> s.subrange(k, k + pat.len()) == pat,
    ensures
        find_marker(s, pat) == if k <= s.len() - pat.len() {
            Some(k)
        } else {
            None::<int>
        },
    decreases k,
{
    if s.len() < pat.len() {
    } else if k == 0 {
        assert(s.take(pat.len() as int) =~= s.subrange(0, pat.len() as int));
    } else {
        assert(s.subrange(0, 0 + pat.len() as int) != pat);
        assert(s.take(pat.len() as int) =~= s.subrange(0, 0 + pat.len() as int));
        assert forall|j: int| 0 <= j < k - 1 implies #[trigger] s.drop_first().subrange(
            j,
            j + pat.len(),
        ) != pat by {
            assert(s.drop_first().subrange(j, j + pat.len()) =~= s.subrange(
                j + 1,
                j + 1 + pat.len(),
            ));
        };
        if k <= s.len() - pat.len() {
            assert(s.drop_first().subrange(k - 1, k - 1 + pat.len()) =~= s.subrange(
                k,
                k + pat.len(),
            ));
        }
        lemma_find_marker_at(s.drop_first(), pat, k - 1);
    }
}

/// Splits one printed line into its title and URL at the first `:::`.
pub fn parse_title_url_line(line: &str) -> (r: Option<(String, String)>)
    ensures
        match r {
            Some(p) => title_url_spec(line@) == Some((p.0@, p.1@)),
            None => title_url_spec(line@) is None,
        },
{
    proof {
        reveal_strlit(":::");
    }
    let n = line.unicode_len();
    if n < 3 {
        proof {
            reveal_strlit(":::");
            assert(line@.len() < ":::"@.len());
        }
        return None;
    }
    let mut i: usize = 0;
    while i <= n - 3
        invariant
            3 <= n == line@.len(),
            0 <= i <= n - 3 + 1,
            forall|j: int| 0 <= j < i ==> #[trigger] line@.subrange(j, j + 3) != ":::"@,
        decreases n - i,
    {
        if line.get_char(i) == ':' && line.get_char(i + 1) == ':' && line.get_char(i + 2) == ':' {
            proof {
                reveal_strlit(":::");
                assert(line@.subrange(i as int, i + 3) =~= ":::"@);
                lemma_find_marker_at(line@, ":::"@, i as int);
                assert(line@.subrange(0, i as int) =~= line@.take(i as int));
                assert(line@.subrange(i + 3, n as int) =~= line@.skip(i + 3));
            }
            let title = String::from_str(line.substring_char(0, i));
            let url = String::from_str(line.substring_char(i + 3, n));
            return Some((title, url));
        }
        proof {
            reveal_strlit(":::");
            assert forall|j: int| 0 <= j < i + 1 implies #[trigger] line@.subrange(j, j + 3)
                != ":::"@ by {
                reveal_strlit(":::");
                if j == i {
                    let sub = line@.subrange(j, j + 3);
                    assert(sub[0] == line@[i as int] && sub[1] == line@[i + 1] && sub[2]
                        == line@[i + 2]);
                    assert(":::"@[0] == ':' && ":::"@[1] == ':' && ":::"@[2] == ':');
                }
            };
        }
        i = i + 1;
    }
    proof {
        reveal_strlit(":::");
        lemma_find_marker_at(line@, ":::"@, n - 3 + 1);
    }
    None
}

/// The marker put before a search result that is itself a channel or a
/// playlist rather than a playable item.
pub open spec fn result_prefix_spec(v: VideoInfoView) -> Seq<char> {
    match (v.result_type, v.url) {
        (Some(t), Some(u)) => if t == "url"@ {
            if contains_seq(u, "/channel/"@) || contains_seq(u, "/@"@) {
                "[Channel] "@
            } else if contains_seq(u, "playlist"@) {
                "[Playlist] "@
            } else {
                ""@
            }
        } else {
            ""@
        },
        _ => ""@,
    }
}

/// The marker put before one search result's title.
pub fn result_label_prefix(v: &VideoInfo) -> (r: String)
    ensures
        r@ == result_prefix_spec(v@),
{
    let url_word = String::from_str("url");
    match (&v.result_type, &v.url) {
        (Some(t), Some(u)) => {
            if *t == url_word {
                if contains_substring(u.as_str(), "/channel/") || contains_substring(
                    u.as_str(),
                    "/@",
                ) {
                    String::from_str("[Channel] ")
                } else if contains_substring(u.as_str(), "playlist") {
                    String::from_str("[Playlist] ")
                } else {
                    String::from_str("")
                }
            } else {
                String::from_str("")
            }
        },
        _ => String::from_str(""),
    }
}

/// One search result's row: marker, title, the duration or item count,
/// the uploader, and the rendered view count where one was given.
pub open spec fn result_label_spec(v: VideoInfoView, views: Option<Seq<char>>) -> Seq<char> {
    result_prefix_spec(v) + v.title + (match v.duration {
        Some(d) => " ["@ + duration_text(d as nat) + "]"@,
        None => match v.playlist_count {
            Some(c) => " ("@ + decimal_of(c as nat) + " items)"@,
            None => ""@,
        },
    }) + (match v.uploader {
        Some(u) => " - "@ + u,
        None => ""@,
    }) + (match views {
        Some(w) => " - "@ + w,
        None => ""@,
    })
}

/// Renders one search result's row; the view count comes in already
/// rendered, since its rounding is not this library's business.
pub fn result_label(v: &VideoInfo, views: &Option<String>) -> (r: String)
    ensures
        r@ == result_label_spec(v@, crate::video::view_opt_string(*views)),
{
    let mut s = result_label_prefix(v);
    s.append(v.title.as_str());
    match v.duration {
        Some(d) => {
            s.append(" [");
            let t = format_duration(d);
            s.append(t.as_str());
            s.append("]");
        },
        None => {
            match v.playlist_count {
                Some(c) => {
                    s.append(" (");
                    let n = u64_to_string(c as u64);
                    s.append(n.as_str());
                    s.append(" items)");
                },
                None => {},
            }
        },
    }
    match &v.uploader {
        Some(u) => {
            s.append(" - ");
            s.append(u.as_str());
        },
        None => {},
    }
    match views {
        Some(w) => {
            s.append(" - ");
            s.append(w.as_str());
        },
        None => {},
    }
    proof {
        reveal_strlit("");
        assert(s@ =~= result_label_spec(v@, crate::video::view_opt_string(*views)));
    }
    s
}

/// Minutes and seconds, the seconds always two digits.
pub open spec fn pad2(x: nat) -> Seq<char> {
    if x < 10 {
        "0"@ + decimal_of(x)
    } else {
        decimal_of(x)
    }
}

/// A duration in whole seconds as hours, minutes and seconds, the hours
/// omitted when zero.
pub open spec fn duration_text(s: nat) -> Seq<char> {
    let h = s / 3600;
    let m = (s % 3600) / 60;
    let sec = s % 60;
    if h > 0 {
        decimal_of(h) + ":"@ + pad2(m) + ":"@ + pad2(sec)
    } else {
        decimal_of(m) + ":"@ + pad2(sec)
    }
}

fn pad2_exec(x: u64) -> (r: String)
    ensures
        r@ == pad2(x as nat),
{
    if x < 10 {
        let mut s = String::from_str("0");
        let num = u64_to_string(x);
        s.append(num.as_str());
        s
    } else {
        u64_to_string(x)
    }
}

/// Renders a duration for a result label.
pub fn format_duration(seconds: u64) -> (r: String)
    ensures
        r@ == duration_text(seconds as nat),
{
    let h = seconds / 3600;
    let m = (seconds % 3600) / 60;
    let sec = seconds % 60;
    if h > 0 {
        let mut s = u64_to_string(h);
        s.append(":");
        let ms = pad2_exec(m);
        s.append(ms.as_str());
        s.append(":");
        let ss = pad2_exec(sec);
        s.append(ss.as_str());
        proof {
            assert(s@ =~= duration_text(seconds as nat));
        }
        s
    } else {
        let mut s = u64_to_string(m);
        s.append(":");
        let ss = pad2_exec(sec);
        s.append(ss.as_str());
        proof {
            assert(s@ =~= duration_text(seconds as nat));
        }
        s
    }
}

} // verus!
