//! Media metadata as reported by the external tool: available formats and
//! per-item information, with the classification used to offer choices.

use vstd::prelude::*;

use vstd::multiset::Multiset;

use crate::text::decimal_of;
use crate::text::u64_to_string;

verus! {

/// Mathematical image of a `Format`.
pub struct FormatView {
    pub format_id: Seq<char>,
    pub format_note: Option<Seq<char>>,
    pub ext: Option<Seq<char>>,
    pub vcodec: Option<Seq<char>>,
    pub acodec: Option<Seq<char>>,
    pub language: Option<Seq<char>>,
    pub width: Option<u32>,
    pub height: Option<u32>,
    pub filesize: Option<u64>,
}

/// One available media stream variant.
#[derive(Debug)]
pub struct Format {
    pub format_id: String,
    pub format_note: Option<String>,
    pub ext: Option<String>,
    pub vcodec: Option<String>,
    pub acodec: Option<String>,
    pub language: Option<String>,
    pub width: Option<u32>,
    pub height: Option<u32>,
    pub filesize: Option<u64>,
}

pub open spec fn view_opt_string(s: Option<String>) -> Option<Seq<char>> {
    match s {
        Some(v) => Some(v@),
        None => None,
    }
}

impl View for Format {
    type V = FormatView;

    open spec fn view(&self) -> FormatView {
        FormatView {
            format_id: self.format_id@,
            format_note: view_opt_string(self.format_note),
            ext: view_opt_string(self.ext),
            vcodec: view_opt_string(self.vcodec),
            acodec: view_opt_string(self.acodec),
            language: view_opt_string(self.language),
            width: self.width,
            height: self.height,
            filesize: self.filesize,
        }
    }
}

/// A format counts as video when its video codec is present and not the
/// explicit "none" sentinel.
pub open spec fn is_video_format(f: FormatView) -> bool {
    match f.vcodec {
        Some(v) => v != "none"@,
        None => false,
    }
}

/// A format counts as audio-only when its audio codec is present and not
/// "none" while its video codec is absent or "none".
pub open spec fn is_audio_format(f: FormatView) -> bool {
    (match f.acodec {
        Some(a) => a != "none"@,
        None => false,
    }) && (match f.vcodec {
        Some(v) => v == "none"@,
        None => true,
    })
}

/// The views of a sequence of formats.
pub open spec fn formats_view(s: Seq<Format>) -> Seq<FormatView> {
    s.map_values(|f: Format| f@)
}

fn clone_opt_string(s: &Option<String>) -> (r: Option<String>)
    ensures
        view_opt_string(r) == view_opt_string(*s),
{
    match s {
        Some(v) => Some(v.clone()),
        None => None,
    }
}

impl Format {
    /// A fresh format with the same content.
    pub fn duplicate(&self) -> (r: Format)
        ensures
            r@ == self@,
    {
        Format {
            format_id: self.format_id.clone(),
            format_note: clone_opt_string(&self.format_note),
            ext: clone_opt_string(&self.ext),
            vcodec: clone_opt_string(&self.vcodec),
            acodec: clone_opt_string(&self.acodec),
            language: clone_opt_string(&self.language),
            width: self.width,
            height: self.height,
            filesize: self.filesize,
        }
    }

    /// Whether this format carries video.
    pub fn is_video(&self) -> (r: bool)
        ensures
            r == is_video_format(self@),
    {
        let none_word = String::from_str("none");
        match &self.vcodec {
            Some(v) => !(*v == none_word),
            None => false,
        }
    }

    /// Whether this format is audio-only.
    pub fn is_audio(&self) -> (r: bool)
        ensures
            r == is_audio_format(self@),
    {
        let none_word = String::from_str("none");
        let audio_ok = match &self.acodec {
            Some(a) => !(*a == none_word),
            None => false,
        };
        let video_absent = match &self.vcodec {
            Some(v) => *v == none_word,
            None => true,
        };
        audio_ok && video_absent
    }
}

/// Mathematical image of a `VideoInfo`.
pub struct VideoInfoView {
    pub id: Seq<char>,
    pub title: Seq<char>,
    pub uploader: Option<Seq<char>>,
    pub channel_url: Option<Seq<char>>,
    pub duration: Option<u64>,
    pub webpage_url: Option<Seq<char>>,
    pub url: Option<Seq<char>>,
    pub view_count: Option<u64>,
    pub playlist_count: Option<u32>,
    pub result_type: Option<Seq<char>>,
    pub formats: Seq<FormatView>,
}

/// One item of metadata parsed from the external tool's output.  The
/// duration is kept as whole seconds.
#[derive(Debug)]
pub struct VideoInfo {
    pub id: String,
    pub title: String,
    pub uploader: Option<String>,
    pub channel_url: Option<String>,
    pub duration: Option<u64>,
    pub webpage_url: Option<String>,
    pub url: Option<String>,
    pub view_count: Option<u64>,
    pub playlist_count: Option<u32>,
    pub result_type: Option<String>,
    pub formats: Vec<Format>,
}

impl View for VideoInfo {
    type V = VideoInfoView;

    open spec fn view(&self) -> VideoInfoView {
        VideoInfoView {
            id: self.id@,
            title: self.title@,
            uploader: view_opt_string(self.uploader),
            channel_url: view_opt_string(self.channel_url),
            duration: self.duration,
            webpage_url: view_opt_string(self.webpage_url),
            url: view_opt_string(self.url),
            view_count: self.view_count,
            playlist_count: self.playlist_count,
            result_type: view_opt_string(self.result_type),
            formats: formats_view(self.formats@),
        }
    }
}

impl VideoInfo {
    /// All formats that carry video, in their reported order.
    pub fn get_video_formats(&self) -> (r: Vec<Format>)
        ensures
            formats_view(r@) == self@.formats.filter(|f: FormatView| is_video_format(f)),
    {
        filter_formats(&self.formats, true)
    }

    /// All audio-only formats, in their reported order.
    pub fn get_audio_formats(&self) -> (r: Vec<Format>)
        ensures
            formats_view(r@) == self@.formats.filter(|f: FormatView| is_audio_format(f)),
    {
        filter_formats(&self.formats, false)
    }
}

fn filter_formats(formats: &Vec<Format>, want_video: bool) -> (r: Vec<Format>)
    ensures
        want_video ==> formats_view(r@) == formats_view(formats@).filter(
            |f: FormatView| is_video_format(f),
        ),
        !want_video ==> formats_view(r@) == formats_view(formats@).filter(
            |f: FormatView| is_audio_format(f),
        ),
{
    let mut r: Vec<Format> = Vec::new();
    let mut i: usize = 0;
    proof {
        reveal(Seq::filter);
        assert(formats_view(formats@.take(0)) =~= Seq::<FormatView>::empty());
        assert(formats_view(r@) =~= Seq::<FormatView>::empty());
    }
    while i < formats.len()
        invariant
            0 <= i <= formats@.len(),
            want_video ==> formats_view(r@) == formats_view(formats@.take(i as int)).filter(
                |f: FormatView| is_video_format(f),
            ),
            !want_video ==> formats_view(r@) == formats_view(formats@.take(i as int)).filter(
                |f: FormatView| is_audio_format(f),
            ),
        decreases formats@.len() - i,
    {
        let f = &formats[i];
        let keep = if want_video {
            f.is_video()
        } else {
            f.is_audio()
        };
        let ghost prev = formats_view(r@);
        if keep {
            r.push(f.duplicate());
        }
        proof {
            reveal(Seq::filter);
            let fv_all = formats_view(formats@.take(i + 1));
            assert(fv_all.drop_last() =~= formats_view(formats@.take(i as int)));
            assert(fv_all.last() == formats@[i as int]@);
            if keep {
                assert(formats_view(r@) =~= prev.push(formats@[i as int]@));
            } else {
                assert(formats_view(r@) =~= prev);
            }
        }
        i = i + 1;
    }
    proof {
        assert(formats@.take(formats@.len() as int) =~= formats@);
    }
    r
}

/// The resolution part of a format label: width by height, or the word
/// "audio" where either is missing.
pub open spec fn resolution_text(f: FormatView) -> Seq<char> {
    match f.width {
        Some(w) => match f.height {
            Some(h) => decimal_of(w as nat) + "x"@ + decimal_of(h as nat),
            None => "audio"@,
        },
        None => "audio"@,
    }
}

/// `o`, or `d` where `o` is absent.
pub open spec fn opt_or(o: Option<Seq<char>>, d: Seq<char>) -> Seq<char> {
    match o {
        Some(v) => v,
        None => d,
    }
}

/// The label shown for one format: identifier, container, resolution or
/// the word "audio", language, and the human note.
pub open spec fn format_label_spec(f: FormatView) -> Seq<char> {
    "["@ + f.format_id + "] "@ + opt_or(f.ext, "?"@) + " "@ + resolution_text(f) + " ["@
        + opt_or(f.language, "?"@) + "] - "@ + opt_or(f.format_note, ""@)
}

/// Renders the selection label for a format.
pub fn format_label(f: &Format) -> (r: String)
    ensures
        r@ == format_label_spec(f@),
{
    let mut s = String::from_str("[");
    s.append(f.format_id.as_str());
    s.append("] ");
    proof {
        assert(s@ =~= "["@ + f@.format_id + "] "@);
    }
    match &f.ext {
        Some(e) => s.append(e.as_str()),
        None => s.append("?"),
    }
    s.append(" ");
    proof {
        assert(s@ =~= "["@ + f@.format_id + "] "@ + opt_or(f@.ext, "?"@) + " "@);
    }
    let ghost mid = s@;
    match (f.width, f.height) {
        (Some(w), Some(h)) => {
            let ws = u64_to_string(w as u64);
            s.append(ws.as_str());
            s.append("x");
            let hs = u64_to_string(h as u64);
            s.append(hs.as_str());
            proof {
                assert(s@ =~= mid + resolution_text(f@));
            }
        },
        _ => {
            s.append("audio");
            proof {
                assert(s@ =~= mid + resolution_text(f@));
            }
        },
    }
    s.append(" [");
    match &f.language {
        Some(l) => s.append(l.as_str()),
        None => s.append("?"),
    }
    proof {
        assert(s@ =~= mid + resolution_text(f@) + " ["@ + opt_or(f@.language, "?"@));
    }
    s.append("] - ");
    match &f.format_note {
        Some(n) => s.append(n.as_str()),
        None => {},
    }
    proof {
        reveal_strlit("");
        assert(s@ =~= mid + resolution_text(f@) + " ["@ + opt_or(f@.language, "?"@) + "] - "@
            + opt_or(f@.format_note, ""@));
        assert(s@ =~= format_label_spec(f@));
    }
    s
}

/// The address a result is reached under: its page address, else its
/// raw address, else the watch address built from its identifier.
pub open spec fn video_url_spec(v: VideoInfoView) -> Seq<char> {
    match v.webpage_url {
        Some(u) => u,
        None => match v.url {
            Some(u) => u,
            None => "https://www.youtube.com/watch?v="@ + v.id,
        },
    }
}

/// The address used to fetch or download one result.
pub fn video_url(v: &VideoInfo) -> (r: String)
    ensures
        r@ == video_url_spec(v@),
{
    match &v.webpage_url {
        Some(u) => u.clone(),
        None => match &v.url {
            Some(u) => u.clone(),
            None => {
                let mut s = String::from_str("https://www.youtube.com/watch?v=");
                s.append(v.id.as_str());
                s
            },
        },
    }
}

/// The sort key used to offer video formats: height, absent counting as 0.
pub open spec fn height_key(f: FormatView) -> u32 {
    match f.height {
        Some(h) => h,
        None => 0,
    }
}

/// The sort key used to offer audio formats: file size, absent counting as 0.
pub open spec fn filesize_key(f: FormatView) -> u64 {
    match f.filesize {
        Some(n) => n,
        None => 0,
    }
}

fn height_key_exec(f: &Format) -> (r: u32)
    ensures
        r == height_key(f@),
{
    match f.height {
        Some(h) => h,
        None => 0,
    }
}

fn filesize_key_exec(f: &Format) -> (r: u64)
    ensures
        r == filesize_key(f@),
{
    match f.filesize {
        Some(n) => n,
        None => 0,
    }
}

/// Sorted largest height first.
pub open spec fn sorted_by_height_desc(s: Seq<FormatView>) -> bool {
    forall|i: int, j: int| 0 <= i < j < s.len() ==> height_key(s[i]) >= height_key(s[j])
}

/// Sorted largest file size first.
pub open spec fn sorted_by_filesize_desc(s: Seq<FormatView>) -> bool {
    forall|i: int, j: int| 0 <= i < j < s.len() ==> filesize_key(s[i]) >= filesize_key(s[j])
}

/// Orders video formats largest height first, keeping the same members.
pub fn sort_formats_by_height(formats: Vec<Format>) -> (r: Vec<Format>)
    ensures
        sorted_by_height_desc(formats_view(r@)),
        r@.to_multiset() == formats@.to_multiset(),
{
    sort_formats(formats, true)
}

/// Orders audio formats largest file size first, keeping the same members.
pub fn sort_formats_by_filesize(formats: Vec<Format>) -> (r: Vec<Format>)
    ensures
        sorted_by_filesize_desc(formats_view(r@)),
        r@.to_multiset() == formats@.to_multiset(),
{
    sort_formats(formats, false)
}

fn format_key_ge(a: &Format, b: &Format, by_height: bool) -> (r: bool)
    ensures
        by_height ==> r == (height_key(a@) >= height_key(b@)),
        !by_height ==> r == (filesize_key(a@) >= filesize_key(b@)),
{
    if by_height {
        height_key_exec(a) >= height_key_exec(b)
    } else {
        filesize_key_exec(a) >= filesize_key_exec(b)
    }
}

spec fn key_ge(a: FormatView, b: FormatView, by_height: bool) -> bool {
    if by_height {
        height_key(a) >= height_key(b)
    } else {
        filesize_key(a) >= filesize_key(b)
    }
}

spec fn sorted_desc(s: Seq<Format>, by_height: bool) -> bool {
    forall|i: int, j: int| 0 <= i < j < s.len() ==> key_ge(s[i]@, s[j]@, by_height)
}

proof fn lemma_insert_keeps_sorted(before: Seq<Format>, next: Format, p: int, by_height: bool)
    requires
        0 <= p <= before.len(),
        sorted_desc(before, by_height),
        forall|j: int| 0 <= j < p ==> key_ge(before[j]@, next@, by_height),
        p < before.len() ==> !key_ge(before[p]@, next@, by_height),
    ensures
        sorted_desc(before.insert(p, next), by_height),
{
    let after = before.insert(p, next);
    assert forall|i: int, j: int| 0 <= i < j < after.len() implies
        key_ge(after[i]@, after[j]@, by_height) by {
        if j < p {
            assert(after[i] == before[i]);
            assert(after[j] == before[j]);
        } else if i < p && j == p {
            assert(after[i] == before[i]);
            assert(after[j] == next);
        } else if i == p {
            assert(after[i] == next);
            assert(after[j] == before[j - 1]);
            assert(p < before.len());
            assert(key_ge(next@, before[p]@, by_height));
            if j - 1 > p {
                assert(key_ge(before[p]@, before[j - 1]@, by_height));
            }
        } else if i < p {
            assert(after[i] == before[i]);
            assert(after[j] == before[j - 1]);
            assert(i < j - 1);
        } else {
            assert(after[i] == before[i - 1]);
            assert(after[j] == before[j - 1]);
        }
    };
}

fn sort_formats(formats: Vec<Format>, by_height: bool) -> (r: Vec<Format>)
    ensures
        by_height ==> sorted_by_height_desc(formats_view(r@)),
        !by_height ==> sorted_by_filesize_desc(formats_view(r@)),
        r@.to_multiset() == formats@.to_multiset(),
{
    let mut rest = formats;
    let mut out: Vec<Format> = Vec::new();
    proof {
        broadcast use vstd::seq_lib::group_to_multiset_ensures;

        assert(out@.to_multiset().add(rest@.to_multiset()) =~= formats@.to_multiset());
    }
    while rest.len() > 0
        invariant
            sorted_desc(out@, by_height),
            out@.to_multiset().add(rest@.to_multiset()) == formats@.to_multiset(),
        decreases rest@.len(),
    {
        let ghost before_pop = rest@;
        let next = rest.remove(0);
        proof {
            broadcast use vstd::seq_lib::group_to_multiset_ensures;

            assert(rest@ =~= before_pop.remove(0));
            assert(before_pop.remove(0).to_multiset() == before_pop.to_multiset().remove(next));
            assert(before_pop.contains(next));
            assert(before_pop.to_multiset() =~= rest@.to_multiset().insert(next));
        }
        // find the first position whose key is below the new element's
        let mut p: usize = 0;
        while p < out.len() && format_key_ge(&out[p], &next, by_height)
            invariant
                0 <= p <= out@.len(),
                forall|j: int| 0 <= j < p ==> key_ge(out@[j]@, next@, by_height),
            decreases out@.len() - p,
        {
            p = p + 1;
        }
        let ghost before = out@;
        out.insert(p, next);
        proof {
            broadcast use vstd::seq_lib::group_to_multiset_ensures;

            lemma_insert_keeps_sorted(before, next, p as int, by_height);
            assert(out@.remove(p as int) =~= before);
            assert(out@.remove(p as int).to_multiset() == before.to_multiset());
            assert(out@[p as int] == next);
            assert(out@.contains(next));
            assert(out@.to_multiset() =~= before.to_multiset().insert(next));
            assert(out@.to_multiset().add(rest@.to_multiset())
                =~= before.to_multiset().add(before_pop.to_multiset()));
        }
    }
    proof {
        broadcast use vstd::seq_lib::group_to_multiset_ensures;

        assert(rest@.to_multiset() =~= Multiset::<Format>::empty());
        assert(out@.to_multiset().add(Multiset::<Format>::empty()) =~= out@.to_multiset());
        if by_height {
            assert forall|i: int, j: int| 0 <= i < j < formats_view(out@).len() implies
                height_key(formats_view(out@)[i]) >= height_key(formats_view(out@)[j]) by {
                assert(key_ge(out@[i]@, out@[j]@, by_height));
            };
        } else {
            assert forall|i: int, j: int| 0 <= i < j < formats_view(out@).len() implies
                filesize_key(formats_view(out@)[i]) >= filesize_key(formats_view(out@)[j]) by {
                assert(key_ge(out@[i]@, out@[j]@, by_height));
            };
        }
    }
    out
}

} // verus!
