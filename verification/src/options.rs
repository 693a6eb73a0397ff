//! Download options and the format-selector expression.
//!
//! The selector is a fallback chain of up to three expressions joined by
//! `/`: a language-constrained chain (only when the preferred-language
//! count equals the audio-format count), an exact chain of the chosen
//! format identifiers, and a prefix-fuzzy chain matching on base
//! identifiers.  Within a chain, the video and audio halves are combined
//! with `+`, and an absent half is omitted.

use vstd::prelude::*;

use crate::text::join_texts;
use crate::text::join_with;
use crate::text::decimal_of;
use crate::text::u64_to_string;
use crate::video::view_opt_string;

verus! {

/// What one download request covers.
#[derive(Debug)]
pub enum DownloadMode {
    Single { video_format: Option<String>, audio_formats: Vec<String> },
    Playlist { indices: Vec<usize>, video_format: Option<String>, audio_formats: Vec<String> },
}

/// The choice made for one download: mode, flags, and the languages
/// aligned with the chosen audio formats.
#[derive(Debug)]
pub struct DownloadOptions {
    pub mode: DownloadMode,
    pub add_chapters: bool,
    pub multi_audio: bool,
    pub preferred_languages: Vec<String>,
}

impl DownloadMode {
    /// The chosen video format identifier, if any.
    pub open spec fn spec_video_format(&self) -> Option<Seq<char>> {
        match self {
            DownloadMode::Single { video_format, .. } => view_opt_string(*video_format),
            DownloadMode::Playlist { video_format, .. } => view_opt_string(*video_format),
        }
    }

    /// The chosen audio format identifiers, in order.
    pub open spec fn spec_audio_formats(&self) -> Seq<Seq<char>> {
        match self {
            DownloadMode::Single { audio_formats, .. } => audio_formats.deep_view(),
            DownloadMode::Playlist { audio_formats, .. } => audio_formats.deep_view(),
        }
    }
}

/// The part of a format identifier before the first `-`, or all of it.
pub open spec fn base_id(s: Seq<char>) -> Seq<char>
    decreases s.len(),
{
    if s.len() == 0 {
        s
    } else if s[0] == '-' {
        Seq::empty()
    } else {
        seq![s[0]] + base_id(s.drop_first())
    }
}

proof fn lemma_base_id_at(s: Seq<char>, k: int)
    requires
        0 <= k <= s.len(),
        forall|j: int| 0 <= j < k ==> s[j] != '-',
        k < s.len() ==> s[k] == '-',
    ensures
        base_id(s) == s.subrange(0, k),
    decreases k,
{
    if s.len() == 0 {
        assert(s.subrange(0, 0) =~= s);
    } else if k == 0 {
        if s[0] == '-' {
            assert(s.subrange(0, 0) =~= Seq::<char>::empty());
        } else {
            assert(false);
        }
    } else {
        lemma_base_id_at(s.drop_first(), k - 1);
        assert(s.drop_first().subrange(0, k - 1) =~= s.subrange(1, k));
        assert(seq![s[0]] + s.subrange(1, k) =~= s.subrange(0, k));
    }
}

/// The base identifier of a chosen format.
pub fn base_id_of(s: &str) -> (r: String)
    ensures
        r@ == base_id(s@),
{
    let n = s.unicode_len();
    let mut k: usize = 0;
    while k < n && s.get_char(k) != '-'
        invariant
            0 <= k <= n == s@.len(),
            forall|j: int| 0 <= j < k ==> s@[j] != '-',
        decreases n - k,
    {
        k = k + 1;
    }
    proof {
        lemma_base_id_at(s@, k as int);
    }
    String::from_str(s.substring_char(0, k))
}

/// The video half of the prefix-fuzzy chain: best video (or best overall
/// when no audio is chosen) restricted to the base identifier prefix.
pub open spec fn video_fuzzy_part(v: Seq<char>, has_audio: bool) -> Seq<char> {
    (if has_audio {
        "bv[format_id^='"@
    } else {
        "b[format_id^='"@
    }) + base_id(v) + "']"@
}

/// One audio member of the prefix-fuzzy chain.
pub open spec fn audio_fuzzy_part(a: Seq<char>) -> Seq<char> {
    "ba[format_id^='"@ + base_id(a) + "']"@
}

/// One audio member of the language-constrained chain.
pub open spec fn audio_lang_part(a: Seq<char>, l: Seq<char>) -> Seq<char> {
    "ba[language='"@ + l + "'][format_id^='"@ + base_id(a) + "']"@
}

/// The members of the exact chain: the chosen identifiers themselves.
pub open spec fn exact_parts(v: Option<Seq<char>>, audios: Seq<Seq<char>>) -> Seq<Seq<char>> {
    match v {
        Some(vid) => seq![vid] + audios,
        None => audios,
    }
}

/// The members of the prefix-fuzzy chain.
pub open spec fn fuzzy_parts(v: Option<Seq<char>>, audios: Seq<Seq<char>>) -> Seq<Seq<char>> {
    let audio_parts = audios.map_values(|a: Seq<char>| audio_fuzzy_part(a));
    match v {
        Some(vid) => seq![video_fuzzy_part(vid, audios.len() > 0)] + audio_parts,
        None => audio_parts,
    }
}

/// The members of the language-constrained chain; meaningful only when
/// one language is given per chosen audio format.
pub open spec fn lang_parts(v: Option<Seq<char>>, audios: Seq<Seq<char>>, langs: Seq<Seq<char>>) -> Seq<Seq<char>> {
    let audio_parts = Seq::new(audios.len(), |i: int| audio_lang_part(audios[i], langs[i]));
    match v {
        Some(vid) => seq![video_fuzzy_part(vid, audios.len() > 0)] + audio_parts,
        None => audio_parts,
    }
}

/// Whether the language-constrained chain is part of the selector: there
/// are chosen audio formats and exactly one preferred language for each.
pub open spec fn lang_chain_included(audios: Seq<Seq<char>>, langs: Seq<Seq<char>>) -> bool {
    audios.len() > 0 && langs.len() == audios.len()
}

/// The whole selector expression, absent when nothing was chosen.
pub open spec fn selector_spec(
    v: Option<Seq<char>>,
    audios: Seq<Seq<char>>,
    langs: Seq<Seq<char>>,
) -> Option<Seq<char>> {
    if v is None && audios.len() == 0 {
        None
    } else {
        let exact = join_texts(exact_parts(v, audios), "+"@);
        let fuzzy = join_texts(fuzzy_parts(v, audios), "+"@);
        if lang_chain_included(audios, langs) {
            Some(join_texts(lang_parts(v, audios, langs), "+"@) + "/"@ + exact + "/"@ + fuzzy)
        } else {
            Some(exact + "/"@ + fuzzy)
        }
    }
}

pub(crate) fn push_deep(v: &mut Vec<String>, s: String)
    ensures
        final(v).deep_view() == old(v).deep_view().push(s@),
        final(v)@.len() == old(v)@.len() + 1,
{
    v.push(s);
    proof {
        assert(v.deep_view() =~= old(v).deep_view().push(s@));
    }
}

fn audio_fuzzy_one(a: &String) -> (r: String)
    ensures
        r@ == audio_fuzzy_part(a@),
{
    let mut s = String::from_str("ba[format_id^='");
    let b = base_id_of(a.as_str());
    s.append(b.as_str());
    s.append("']");
    proof {
        assert(s@ =~= audio_fuzzy_part(a@));
    }
    s
}

fn audio_lang_one(a: &String, l: &String) -> (r: String)
    ensures
        r@ == audio_lang_part(a@, l@),
{
    let mut s = String::from_str("ba[language='");
    s.append(l.as_str());
    s.append("'][format_id^='");
    let b = base_id_of(a.as_str());
    s.append(b.as_str());
    s.append("']");
    proof {
        assert(s@ =~= audio_lang_part(a@, l@));
    }
    s
}

fn video_fuzzy_one(v: &String, has_audio: bool) -> (r: String)
    ensures
        r@ == video_fuzzy_part(v@, has_audio),
{
    let mut s = if has_audio {
        String::from_str("bv[format_id^='")
    } else {
        String::from_str("b[format_id^='")
    };
    let b = base_id_of(v.as_str());
    s.append(b.as_str());
    s.append("']");
    proof {
        assert(s@ =~= video_fuzzy_part(v@, has_audio));
    }
    s
}

/// Builds the format-selector expression from the chosen video format,
/// the chosen audio formats and the aligned preferred languages; `None`
/// when nothing was chosen.
pub fn build_format_selector(
    video_format: &Option<String>,
    audio_formats: &Vec<String>,
    preferred_languages: &Vec<String>,
) -> (r: Option<String>)
    ensures
        match r {
            Some(s) => selector_spec(
                view_opt_string(*video_format),
                audio_formats.deep_view(),
                preferred_languages.deep_view(),
            ) == Some(s@),
            None => selector_spec(
                view_opt_string(*video_format),
                audio_formats.deep_view(),
                preferred_languages.deep_view(),
            ) is None,
        },
{
    let ghost v = view_opt_string(*video_format);
    let ghost audios = audio_formats.deep_view();
    let ghost langs = preferred_languages.deep_view();

    if video_format.is_none() && audio_formats.len() == 0 {
        proof {
            assert(audios.len() == 0);
        }
        return None;
    }
    let has_audio = audio_formats.len() > 0;

    // exact chain members
    let mut exact: Vec<String> = Vec::new();
    // prefix-fuzzy chain members
    let mut fuzzy: Vec<String> = Vec::new();
    // language-constrained chain members
    let mut lang: Vec<String> = Vec::new();

    match video_format {
        Some(vid) => {
            push_deep(&mut exact, vid.clone());
            push_deep(&mut fuzzy, video_fuzzy_one(vid, has_audio));
            push_deep(&mut lang, video_fuzzy_one(vid, has_audio));
        },
        None => {},
    }
    let ghost exact_head = exact.deep_view();
    let ghost fuzzy_head = fuzzy.deep_view();
    let ghost lang_head = lang.deep_view();

    let use_langs = has_audio && preferred_languages.len() == audio_formats.len();

    let mut i: usize = 0;
    while i < audio_formats.len()
        invariant
            0 <= i <= audio_formats@.len(),
            audios == audio_formats.deep_view(),
            langs == preferred_languages.deep_view(),
            audios.len() == audio_formats@.len(),
            langs.len() == preferred_languages@.len(),
            use_langs ==> langs.len() == audios.len(),
            exact.deep_view() == exact_head + audios.take(i as int),
            fuzzy.deep_view() == fuzzy_head + audios.take(i as int).map_values(
                |a: Seq<char>| audio_fuzzy_part(a),
            ),
            use_langs ==> lang.deep_view() == lang_head + Seq::new(
                i as nat,
                |j: int| audio_lang_part(audios[j], langs[j]),
            ),
        decreases audio_formats@.len() - i,
    {
        let a = &audio_formats[i];
        push_deep(&mut exact, a.clone());
        push_deep(&mut fuzzy, audio_fuzzy_one(a));
        if use_langs {
            let l = &preferred_languages[i];
            push_deep(&mut lang, audio_lang_one(a, l));
        }
        proof {
            assert(exact.deep_view() =~= exact_head + audios.take(i + 1));
            assert(fuzzy.deep_view() =~= fuzzy_head + audios.take(i + 1).map_values(
                |a: Seq<char>| audio_fuzzy_part(a),
            ));
            if use_langs {
                assert(lang.deep_view() =~= lang_head + Seq::new(
                    (i + 1) as nat,
                    |j: int| audio_lang_part(audios[j], langs[j]),
                ));
            }
        }
        i = i + 1;
    }
    proof {
        assert(audios.take(audios.len() as int) =~= audios);
        assert(exact.deep_view() =~= exact_parts(v, audios));
        assert(fuzzy.deep_view() =~= fuzzy_parts(v, audios));
        if use_langs {
            assert(lang.deep_view() =~= lang_parts(v, audios, langs));
        }
    }

    let exact_s = join_with(&exact, "+");
    let fuzzy_s = join_with(&fuzzy, "+");
    let mut out: String;
    if use_langs {
        out = join_with(&lang, "+");
        out.append("/");
        out.append(exact_s.as_str());
    } else {
        out = exact_s;
    }
    out.append("/");
    out.append(fuzzy_s.as_str());
    proof {
        if use_langs {
            assert(out@ =~= join_texts(lang_parts(v, audios, langs), "+"@) + "/"@
                + join_texts(exact_parts(v, audios), "+"@) + "/"@
                + join_texts(fuzzy_parts(v, audios), "+"@));
        } else {
            assert(out@ =~= join_texts(exact_parts(v, audios), "+"@) + "/"@
                + join_texts(fuzzy_parts(v, audios), "+"@));
        }
    }
    Some(out)
}

/// The format identifiers of the chosen rows, in order.
pub open spec fn chosen_ids(formats: Seq<crate::video::FormatView>, picks: Seq<usize>) -> Seq<
    Seq<char>,
> {
    picks.map_values(|p: usize| formats[p as int].format_id)
}

/// The languages of the chosen rows that name one, in order.
pub open spec fn chosen_langs(formats: Seq<crate::video::FormatView>, picks: Seq<usize>) -> Seq<
    Seq<char>,
>
    decreases picks.len(),
{
    if picks.len() == 0 {
        Seq::empty()
    } else {
        let rest = chosen_langs(formats, picks.drop_first());
        match formats[picks[0] as int].language {
            Some(l) => seq![l] + rest,
            None => rest,
        }
    }
}

/// Assembles the options of one download from the rows chosen in the
/// offered format lists: the identifiers of the picked video and audio
/// rows, the languages those audio rows name, the playlist rows where a
/// playlist is downloaded, and the two flags.
pub fn options_from_selection(
    video: &Vec<crate::video::Format>,
    video_pick: Option<usize>,
    audio: &Vec<crate::video::Format>,
    audio_picks: &Vec<usize>,
    playlist_indices: Option<Vec<usize>>,
    add_chapters: bool,
    multi_audio: bool,
) -> (r: DownloadOptions)
    requires
        video_pick matches Some(p) ==> p < video@.len(),
        forall|i: int| 0 <= i < audio_picks@.len() ==> audio_picks@[i] < audio@.len(),
    ensures
        r.mode.spec_video_format() == (match video_pick {
            Some(p) => Some(video@[p as int]@.format_id),
            None => None::<Seq<char>>,
        }),
        r.mode.spec_audio_formats() == chosen_ids(
            crate::video::formats_view(audio@),
            audio_picks@,
        ),
        r.preferred_languages.deep_view() == chosen_langs(
            crate::video::formats_view(audio@),
            audio_picks@,
        ),
        match playlist_indices {
            Some(idx) => r.mode matches DownloadMode::Playlist { indices, .. } && indices@
                == idx@,
            None => r.mode is Single,
        },
        r.add_chapters == add_chapters,
        r.multi_audio == multi_audio,
{
    let ghost fviews = crate::video::formats_view(audio@);
    let video_format: Option<String> = match video_pick {
        Some(p) => Some(video[p].format_id.clone()),
        None => None,
    };
    let mut audio_formats: Vec<String> = Vec::new();
    let mut preferred_languages: Vec<String> = Vec::new();
    let mut i: usize = 0;
    proof {
        assert(audio_picks@.skip(0) =~= audio_picks@);
        assert(audio_formats.deep_view() =~~= chosen_ids(fviews, audio_picks@.take(0)));
    }
    while i < audio_picks.len()
        invariant
            0 <= i <= audio_picks@.len(),
            forall|j: int| 0 <= j < audio_picks@.len() ==> audio_picks@[j] < audio@.len(),
            fviews == crate::video::formats_view(audio@),
            fviews.len() == audio@.len(),
            audio_formats.deep_view() == chosen_ids(fviews, audio_picks@.take(i as int)),
            preferred_languages.deep_view() + chosen_langs(fviews, audio_picks@.skip(i as int))
                == chosen_langs(fviews, audio_picks@),
        decreases audio_picks@.len() - i,
    {
        let p = audio_picks[i];
        let f = &audio[p];
        push_deep(&mut audio_formats, f.format_id.clone());
        proof {
            assert(audio_picks@.take(i + 1) =~= audio_picks@.take(i as int).push(
                audio_picks@[i as int],
            ));
            assert(audio_formats.deep_view() =~~= chosen_ids(fviews, audio_picks@.take(i + 1)));
        }
        let ghost langs_before = preferred_languages.deep_view();
        match &f.language {
            Some(l) => {
                push_deep(&mut preferred_languages, l.clone());
            },
            None => {},
        }
        proof {
            let rest = audio_picks@.skip(i as int);
            assert(rest[0] == audio_picks@[i as int]);
            assert(rest.drop_first() =~= audio_picks@.skip(i + 1));
            match fviews[audio_picks@[i as int] as int].language {
                Some(l) => {
                    assert(preferred_languages.deep_view() =~~= langs_before.push(l));
                    assert(langs_before.push(l) + chosen_langs(fviews, audio_picks@.skip(i + 1))
                        =~= langs_before + chosen_langs(fviews, rest));
                },
                None => {},
            }
        }
        i = i + 1;
    }
    proof {
        assert(audio_picks@.take(audio_picks@.len() as int) =~= audio_picks@);
        assert(audio_picks@.skip(audio_picks@.len() as int) =~= Seq::<usize>::empty());
        assert(preferred_languages.deep_view() + Seq::<Seq<char>>::empty()
            =~= preferred_languages.deep_view());
    }
    let mode = match playlist_indices {
        Some(indices) => DownloadMode::Playlist { indices, video_format, audio_formats },
        None => DownloadMode::Single { video_format, audio_formats },
    };
    DownloadOptions { mode, add_chapters, multi_audio, preferred_languages }
}

/// Turns chosen row positions into the 1-based playlist item numbers the
/// external tool counts by.
pub fn one_based_indices(picks: &Vec<usize>) -> (r: Vec<usize>)
    requires
        forall|i: int| 0 <= i < picks@.len() ==> picks@[i] < usize::MAX,
    ensures
        r@ == picks@.map_values(|p: usize| (p + 1) as usize),
{
    let mut r: Vec<usize> = Vec::new();
    let mut i: usize = 0;
    proof {
        assert(r@ =~= picks@.take(0).map_values(|p: usize| (p + 1) as usize));
    }
    while i < picks.len()
        invariant
            0 <= i <= picks@.len(),
            forall|j: int| 0 <= j < picks@.len() ==> picks@[j] < usize::MAX,
            r@ == picks@.take(i as int).map_values(|p: usize| (p + 1) as usize),
        decreases picks@.len() - i,
    {
        r.push(picks[i] + 1);
        proof {
            assert(picks@.take(i + 1) =~= picks@.take(i as int).push(picks@[i as int]));
            assert(r@ =~= picks@.take(i + 1).map_values(|p: usize| (p + 1) as usize));
        }
        i = i + 1;
    }
    proof {
        assert(picks@.take(picks@.len() as int) =~= picks@);
    }
    r
}

/// The playlist restriction text: the chosen 1-based indices in order,
/// separated by commas.
pub open spec fn indices_text(xs: Seq<usize>) -> Seq<char> {
    join_texts(xs.map_values(|x: usize| decimal_of(x as nat)), ","@)
}

/// Renders playlist indices as the external tool's `--playlist-items`
/// argument expects them.
pub fn join_indices(xs: &Vec<usize>) -> (r: String)
    ensures
        r@ == indices_text(xs@),
{
    let mut parts: Vec<String> = Vec::new();
    let mut i: usize = 0;
    while i < xs.len()
        invariant
            0 <= i <= xs@.len(),
            parts.deep_view() == xs@.take(i as int).map_values(|x: usize| decimal_of(x as nat)),
        decreases xs@.len() - i,
    {
        push_deep(&mut parts, u64_to_string(xs[i] as u64));
        proof {
            assert(parts.deep_view() =~= xs@.take(i + 1).map_values(
                |x: usize| decimal_of(x as nat),
            ));
        }
        i = i + 1;
    }
    proof {
        assert(xs@.take(xs@.len() as int) =~= xs@);
    }
    join_with(&parts, ",")
}

} // verus!
