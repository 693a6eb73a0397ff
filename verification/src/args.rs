//! Construction of the external tool's argument lists: user flag parsing,
//! environment-variable expansion, and the full invocations for metadata
//! fetching and downloading.

use vstd::prelude::*;

use crate::options::DownloadMode;
use crate::options::DownloadOptions;
use crate::options::indices_text;
use crate::options::join_indices;
use crate::options::selector_spec;
use crate::options::build_format_selector;
use crate::text::trim_spec;
use crate::text::trim;
use crate::text::ws_split_spec;
use crate::text::split_whitespace_words;
use crate::video::view_opt_string;

verus! {

/// The value bound to `name` by the first matching pair, if any.
pub open spec fn env_lookup(env: Seq<(Seq<char>, Seq<char>)>, name: Seq<char>) -> Option<Seq<char>>
    decreases env.len(),
{
    if env.len() == 0 {
        None
    } else if env[0].0 == name {
        Some(env[0].1)
    } else {
        env_lookup(env.drop_first(), name)
    }
}

/// The views of an environment snapshot.
pub open spec fn env_view(env: Seq<(String, String)>) -> Seq<(Seq<char>, Seq<char>)> {
    env.map_values(|p: (String, String)| (p.0@, p.1@))
}

/// The index of the first occurrence of `c` in `s`, if any.
pub open spec fn find_first(s: Seq<char>, c: char) -> Option<int>
    decreases s.len(),
{
    if s.len() == 0 {
        None
    } else if s[0] == c {
        Some(0)
    } else {
        match find_first(s.drop_first(), c) {
            Some(i) => Some(i + 1),
            None => None,
        }
    }
}

pub(crate) proof fn lemma_find_first_at(s: Seq<char>, c: char, k: int)
    requires
        0 <= k <= s.len(),
        forall|j: int| 0 <= j < k ==> s[j] != c,
        k < s.len() ==> s[k] == c,
    ensures
        find_first(s, c) == if k < s.len() {
            Some(k)
        } else {
            None::<int>
        },
    decreases k,
{
    if k > 0 {
        lemma_find_first_at(s.drop_first(), c, k - 1);
    } else if s.len() > 0 {
    }
}

/// `s` with each `%NAME%` reference to a bound variable replaced by its
/// value, scanning left to right; an unmatched or unbound reference is
/// kept, and replacement text is never rescanned.
pub open spec fn expand_vars_spec(s: Seq<char>, env: Seq<(Seq<char>, Seq<char>)>) -> Seq<char>
    decreases s.len(),
{
    match find_first(s, '%') {
        None => s,
        Some(p) => if 0 <= p && p < s.len() {
            match find_first(s.subrange(p + 1, s.len() as int), '%') {
                None => s,
                Some(q) => if 0 <= q && p + q + 2 <= s.len() {
                    let name = s.subrange(p + 1, p + 1 + q);
                    let tail = s.subrange(p + q + 2, s.len() as int);
                    match env_lookup(env, name) {
                        Some(val) => s.subrange(0, p) + val + expand_vars_spec(tail, env),
                        None => s.subrange(0, p + q + 2) + expand_vars_spec(tail, env),
                    }
                } else {
                    s
                },
            }
        } else {
            s
        },
    }
}

/// First index of `c` in `s` at or after `from`.
pub(crate) fn find_char_from(s: &str, c: char, from: usize) -> (r: Option<usize>)
    requires
        from <= s@.len(),
    ensures
        match r {
            Some(i) => from <= i < s@.len() && s@[i as int] == c && forall|j: int|
                from <= j < i ==> s@[j] != c,
            None => forall|j: int| from <= j < s@.len() ==> s@[j] != c,
        },
{
    let n = s.unicode_len();
    let mut i = from;
    while i < n && s.get_char(i) != c
        invariant
            from <= i <= n == s@.len(),
            forall|j: int| from <= j < i ==> s@[j] != c,
        decreases n - i,
    {
        i = i + 1;
    }
    if i < n {
        Some(i)
    } else {
        None
    }
}

/// The first binding of `name`, if any.
fn env_get<'a>(env: &'a Vec<(String, String)>, name: &String) -> (r: Option<&'a String>)
    ensures
        match r {
            Some(v) => env_lookup(env_view(env@), name@) == Some(v@),
            None => env_lookup(env_view(env@), name@) is None,
        },
{
    let mut i: usize = 0;
    proof {
        assert(env_view(env@).skip(0) =~= env_view(env@));
    }
    while i < env.len()
        invariant
            0 <= i <= env@.len(),
            env_lookup(env_view(env@), name@)
                == env_lookup(env_view(env@).skip(i as int), name@),
        decreases env@.len() - i,
    {
        let e = &env[i];
        proof {
            assert(env_view(env@).skip(i as int)[0] == (env@[i as int].0@, env@[i as int].1@));
            assert(env_view(env@).skip(i as int).drop_first()
                =~= env_view(env@).skip(i + 1));
        }
        if e.0 == *name {
            return Some(&env[i].1);
        }
        i = i + 1;
    }
    proof {
        assert(env_view(env@).skip(env@.len() as int) =~= Seq::<(Seq<char>, Seq<char>)>::empty());
    }
    None
}

/// Expands `%NAME%` references in `arg` against the given environment
/// snapshot, as the user's flags ask for.
pub fn expand_vars(arg: &str, env: &Vec<(String, String)>) -> (r: String)
    ensures
        r@ == expand_vars_spec(arg@, env_view(env@)),
    decreases arg@.len(),
{
    let n = arg.unicode_len();
    let p = match find_char_from(arg, '%', 0) {
        Some(p) => p,
        None => {
            proof {
                lemma_find_first_at(arg@, '%', n as int);
            }
            return String::from_str(arg);
        },
    };
    proof {
        lemma_find_first_at(arg@, '%', p as int);
    }
    let q = match find_char_from(arg, '%', p + 1) {
        Some(q) => q,
        None => {
            proof {
                let rest = arg@.subrange(p + 1, n as int);
                assert(forall|j: int| 0 <= j < rest.len() ==> rest[j] == arg@[p + 1 + j]);
                lemma_find_first_at(rest, '%', rest.len() as int);
            }
            return String::from_str(arg);
        },
    };
    proof {
        let rest = arg@.subrange(p + 1, n as int);
        assert(forall|j: int| 0 <= j < rest.len() ==> rest[j] == arg@[p + 1 + j]);
        lemma_find_first_at(rest, '%', q - (p + 1));
        assert(arg@.subrange(p + 1, p + 1 + (q - p - 1)) =~= arg@.subrange(p + 1, q as int));
    }
    let name = String::from_str(arg.substring_char(p + 1, q));
    let tail = arg.substring_char(q + 1, n);
    let found = match env_get(env, &name) {
        Some(v) => Some(v.clone()),
        None => None,
    };
    match found {
        Some(val) => {
            let mut out = String::from_str(arg.substring_char(0, p));
            out.append(val.as_str());
            let rec = expand_vars(tail, env);
            out.append(rec.as_str());
            proof {
                assert(out@ =~= expand_vars_spec(arg@, env_view(env@)));
            }
            out
        },
        None => {
            let mut out = String::from_str(arg.substring_char(0, q + 1));
            let rec = expand_vars(tail, env);
            out.append(rec.as_str());
            proof {
                assert(out@ =~= expand_vars_spec(arg@, env_view(env@)));
            }
            out
        },
    }
}

/// What shell-style splitting makes of a flag string, or nothing where
/// the string is malformed; a function of the string alone.
pub uninterp spec fn shell_split(s: Seq<char>) -> Option<Seq<Seq<char>>>;

/// Relies on shell_words::split: parses a string into words by POSIX
/// shell rules, yielding an error exactly on unmatched quoting; the
/// outcome depends on the string alone.
#[verifier::external_body]
fn shell_split_words(s: &str) -> (r: Option<Vec<String>>)
    ensures
        match r {
            Some(v) => shell_split(s@) == Some(v.deep_view()),
            None => shell_split(s@) is None,
        },
{
    match shell_words::split(s) {
        Ok(v) => Some(v),
        Err(_) => None,
    }
}

/// The words of a flag string: shell-style words where the string parses,
/// else a plain whitespace split.
pub open spec fn flags_of(s: Seq<char>) -> Seq<Seq<char>> {
    match shell_split(s) {
        Some(v) => v,
        None => ws_split_spec(s),
    }
}

/// Parses the user's global flag string into separate arguments, falling
/// back to whitespace splitting where shell-style parsing fails.
pub fn parse_flag_string(s: &str) -> (r: Vec<String>)
    ensures
        r.deep_view() == flags_of(s@),
{
    match shell_split_words(s) {
        Some(v) => v,
        None => split_whitespace_words(s),
    }
}

/// Each flag expanded against the environment.
pub open spec fn expanded_flags(
    flags: Seq<char>,
    env: Seq<(Seq<char>, Seq<char>)>,
) -> Seq<Seq<char>> {
    flags_of(flags).map_values(|a: Seq<char>| expand_vars_spec(a, env))
}

/// Parses a flag string and expands every flag.
pub fn parse_and_expand_flags(s: &str, env: &Vec<(String, String)>) -> (r: Vec<String>)
    ensures
        r.deep_view() == expanded_flags(s@, env_view(env@)),
{
    let parsed = parse_flag_string(s);
    let mut r: Vec<String> = Vec::new();
    let mut i: usize = 0;
    while i < parsed.len()
        invariant
            0 <= i <= parsed@.len(),
            parsed.deep_view() == flags_of(s@),
            parsed.deep_view().len() == parsed@.len(),
            r.deep_view() == parsed.deep_view().take(i as int).map_values(
                |a: Seq<char>| expand_vars_spec(a, env_view(env@)),
            ),
        decreases parsed@.len() - i,
    {
        let x = expand_vars(parsed[i].as_str(), env);
        push_string(&mut r, x);
        proof {
            assert(parsed.deep_view().take(i + 1)
                =~= parsed.deep_view().take(i as int).push(parsed.deep_view()[i as int]));
            assert(parsed.deep_view()[i as int] == parsed@[i as int]@);
            assert(r.deep_view() =~~= parsed.deep_view().take(i + 1).map_values(
                |a: Seq<char>| expand_vars_spec(a, env_view(env@)),
            ));
        }
        i = i + 1;
    }
    proof {
        assert(parsed.deep_view().take(parsed@.len() as int) =~= parsed.deep_view());
    }
    r
}

/// Moves all of `src` onto the end of `dst`.
fn append_all(dst: &mut Vec<String>, src: Vec<String>)
    ensures
        final(dst).deep_view() == old(dst).deep_view() + src.deep_view(),
{
    let ghost sv = src.deep_view();
    let mut src = src;
    dst.append(&mut src);
    proof {
        assert(dst.deep_view() =~~= old(dst).deep_view() + sv);
    }
}

fn push_string(dst: &mut Vec<String>, s: String)
    ensures
        final(dst).deep_view() == old(dst).deep_view().push(s@),
{
    dst.push(s);
    proof {
        assert(dst.deep_view() =~~= old(dst).deep_view().push(s@));
    }
}

fn push_str_arg(dst: &mut Vec<String>, s: &str)
    ensures
        final(dst).deep_view() == old(dst).deep_view().push(s@),
{
    dst.push(String::from_str(s));
    proof {
        assert(dst.deep_view() =~= old(dst).deep_view().push(s@));
    }
}

/// The metadata-fetch invocation: UTF-8 output, the user's expanded
/// flags, then a flattened JSON dump of the URL.
pub open spec fn info_fetch_args_spec(
    flags: Seq<char>,
    env: Seq<(Seq<char>, Seq<char>)>,
    url: Seq<char>,
) -> Seq<Seq<char>> {
    seq!["--encoding"@, "utf-8"@] + expanded_flags(flags, env) + seq![
        "--dump-json"@,
        "--flat-playlist"@,
        url,
    ]
}

/// Builds the argument list for one metadata fetch.
pub fn build_info_fetch_args(global_flags: &str, env: &Vec<(String, String)>, url: &str) -> (r:
    Vec<String>)
    ensures
        r.deep_view() == info_fetch_args_spec(global_flags@, env_view(env@), url@),
{
    let mut r: Vec<String> = Vec::new();
    push_str_arg(&mut r, "--encoding");
    push_str_arg(&mut r, "utf-8");
    append_all(&mut r, parse_and_expand_flags(global_flags, env));
    push_str_arg(&mut r, "--dump-json");
    push_str_arg(&mut r, "--flat-playlist");
    push_str_arg(&mut r, url);
    proof {
        assert(r.deep_view() =~= info_fetch_args_spec(global_flags@, env_view(env@), url@));
    }
    r
}

/// The one-shot refresh invocation that fetches full format data for the
/// first playlist item only.
pub open spec fn format_refresh_args_spec(
    flags: Seq<char>,
    env: Seq<(Seq<char>, Seq<char>)>,
    url: Seq<char>,
) -> Seq<Seq<char>> {
    expanded_flags(flags, env) + seq!["--dump-json"@, "--playlist-items"@, "1"@, url]
}

/// Builds the argument list for the format refresh of the first item.
pub fn build_format_refresh_args(global_flags: &str, env: &Vec<(String, String)>, url: &str) -> (r:
    Vec<String>)
    ensures
        r.deep_view() == format_refresh_args_spec(global_flags@, env_view(env@), url@),
{
    let mut r: Vec<String> = Vec::new();
    append_all(&mut r, parse_and_expand_flags(global_flags, env));
    push_str_arg(&mut r, "--dump-json");
    push_str_arg(&mut r, "--playlist-items");
    push_str_arg(&mut r, "1");
    push_str_arg(&mut r, url);
    proof {
        assert(r.deep_view() =~= format_refresh_args_spec(global_flags@, env_view(env@), url@));
    }
    r
}

/// The explicit merger location argument: only a configured path that
/// names a directory deserves one; a bare tool name is left to lookup.
pub open spec fn ffmpeg_location_spec(path: Seq<char>, names_directory: bool) -> Option<Seq<char>> {
    if path.len() > 0 && path != "ffmpeg"@ && names_directory {
        Some(path)
    } else {
        None
    }
}

/// Decides whether the merger path is passed explicitly.  The caller
/// says whether the path has a directory component or is absolute, which
/// is a question about the host's path syntax.
pub fn ffmpeg_location(path: &String, names_directory: bool) -> (r: Option<String>)
    ensures
        view_opt_string(r) == ffmpeg_location_spec(path@, names_directory),
{
    let bare = String::from_str("ffmpeg");
    if path.unicode_len() > 0 && !(*path == bare) && names_directory {
        Some(path.clone())
    } else {
        None
    }
}

/// The arguments contributed by the user's format and playlist choice.
pub open spec fn option_args_spec(o: DownloadOptions) -> Seq<Seq<char>> {
    let v = o.mode.spec_video_format();
    let audios = o.mode.spec_audio_formats();
    (match selector_spec(v, audios, o.preferred_languages.deep_view()) {
        Some(s) => seq!["-f"@, s],
        None => Seq::empty(),
    }) + (match o.mode {
        DownloadMode::Playlist { indices, .. } => seq!["--playlist-items"@, indices_text(indices@)],
        DownloadMode::Single { .. } => Seq::empty(),
    }) + (if o.add_chapters {
        seq!["--embed-chapters"@]
    } else {
        Seq::empty()
    }) + (if o.multi_audio || o.mode.spec_audio_formats().len() > 1 {
        seq!["--audio-multistreams"@]
    } else {
        Seq::empty()
    })
}

/// The whole batch-download invocation: UTF-8 output, expanded global
/// flags, the merger location where one is owed, the user's choice, the
/// custom command's expanded words, then every URL in order.
pub open spec fn download_args_spec(
    flags: Seq<char>,
    env: Seq<(Seq<char>, Seq<char>)>,
    ffmpeg: Option<Seq<char>>,
    opts: Option<DownloadOptions>,
    custom: Option<Seq<char>>,
    urls: Seq<Seq<char>>,
) -> Seq<Seq<char>> {
    seq!["--encoding"@, "utf-8"@] + expanded_flags(flags, env) + (match ffmpeg {
        Some(p) => seq!["--ffmpeg-location"@, p],
        None => Seq::empty(),
    }) + (match opts {
        Some(o) => option_args_spec(o),
        None => Seq::empty(),
    }) + (match custom {
        Some(c) => expanded_flags(c, env),
        None => Seq::empty(),
    }) + urls
}

/// Builds the argument list for one batch download.
#[verifier::rlimit(50)]
pub fn build_download_args(
    global_flags: &str,
    env: &Vec<(String, String)>,
    ffmpeg: &Option<String>,
    opts: &Option<DownloadOptions>,
    custom: &Option<String>,
    urls: &Vec<String>,
) -> (r: Vec<String>)
    ensures
        r.deep_view() == download_args_spec(
            global_flags@,
            env_view(env@),
            view_opt_string(*ffmpeg),
            *opts,
            view_opt_string(*custom),
            urls.deep_view(),
        ),
{
    let mut r: Vec<String> = Vec::new();
    push_str_arg(&mut r, "--encoding");
    push_str_arg(&mut r, "utf-8");
    append_all(&mut r, parse_and_expand_flags(global_flags, env));
    match ffmpeg {
        Some(p) => {
            push_str_arg(&mut r, "--ffmpeg-location");
            push_str_arg(&mut r, p.as_str());
        },
        None => {},
    }
    let ghost before_opts = r.deep_view();
    match opts {
        Some(o) => {
            let (video_format, audio_formats) = match &o.mode {
                DownloadMode::Single { video_format, audio_formats } => (
                    video_format,
                    audio_formats,
                ),
                DownloadMode::Playlist { video_format, audio_formats, .. } => (
                    video_format,
                    audio_formats,
                ),
            };
            match build_format_selector(video_format, audio_formats, &o.preferred_languages) {
                Some(sel) => {
                    push_str_arg(&mut r, "-f");
                    push_str_arg(&mut r, sel.as_str());
                },
                None => {},
            }
            match &o.mode {
                DownloadMode::Playlist { indices, .. } => {
                    push_str_arg(&mut r, "--playlist-items");
                    let joined = join_indices(indices);
                    push_str_arg(&mut r, joined.as_str());
                },
                DownloadMode::Single { .. } => {},
            }
            if o.add_chapters {
                push_str_arg(&mut r, "--embed-chapters");
            }
            if o.multi_audio || audio_formats.len() > 1 {
                push_str_arg(&mut r, "--audio-multistreams");
            }
            proof {
                assert(r.deep_view() =~= before_opts + option_args_spec(*o));
            }
        },
        None => {},
    }
    match custom {
        Some(c) => {
            append_all(&mut r, parse_and_expand_flags(c.as_str(), env));
        },
        None => {},
    }
    let mut i: usize = 0;
    let ghost before_urls = r.deep_view();
    while i < urls.len()
        invariant
            0 <= i <= urls@.len(),
            urls.deep_view().len() == urls@.len(),
            r.deep_view() == before_urls + urls.deep_view().take(i as int),
        decreases urls@.len() - i,
    {
        push_str_arg(&mut r, urls[i].as_str());
        proof {
            assert(r.deep_view() =~= before_urls + urls.deep_view().take(i + 1));
        }
        i = i + 1;
    }
    proof {
        assert(urls.deep_view().take(urls@.len() as int) =~= urls.deep_view());
        assert(r.deep_view() =~= download_args_spec(
            global_flags@,
            env_view(env@),
            view_opt_string(*ffmpeg),
            *opts,
            view_opt_string(*custom),
            urls.deep_view(),
        ));
    }
    r
}

/// The self-update invocation: update, naming the channel where one is
/// configured and not the default.
pub open spec fn update_args_spec(channel: Seq<char>) -> Seq<Seq<char>> {
    if channel.len() > 0 && channel != "stable"@ {
        seq!["-U"@, "--update-to"@, channel]
    } else {
        seq!["-U"@]
    }
}

/// Builds the argument list for the tool's self-update.
pub fn build_update_args(channel: &String) -> (r: Vec<String>)
    ensures
        r.deep_view() == update_args_spec(channel@),
{
    let mut r: Vec<String> = Vec::new();
    push_str_arg(&mut r, "-U");
    let stable = String::from_str("stable");
    if channel.unicode_len() > 0 && !(*channel == stable) {
        push_str_arg(&mut r, "--update-to");
        push_str_arg(&mut r, channel.as_str());
        proof {
            assert(r.deep_view() =~= update_args_spec(channel@));
        }
    } else {
        proof {
            assert(r.deep_view() =~= update_args_spec(channel@));
        }
    }
    r
}

/// Fold to ASCII lower case, enough to recognise an `.exe` suffix.
pub open spec fn ascii_fold(c: char) -> char {
    if 'A' <= c && c <= 'Z' {
        ((c as u8) + 32) as char
    } else {
        c
    }
}

/// Whether the name already carries an `.exe` suffix in any letter case.
pub open spec fn ends_with_exe(s: Seq<char>) -> bool {
    s.len() >= 4 && ascii_fold(s[s.len() - 4]) == '.' && ascii_fold(s[s.len() - 3]) == 'e'
        && ascii_fold(s[s.len() - 2]) == 'x' && ascii_fold(s[s.len() - 1]) == 'e'
}

fn ascii_fold_exec(c: char) -> (r: char)
    ensures
        r == ascii_fold(c),
{
    if 'A' <= c && c <= 'Z' {
        (((c as u8) + 32) as char)
    } else {
        c
    }
}

fn ends_with_exe_exec(s: &str) -> (r: bool)
    ensures
        r == ends_with_exe(s@),
{
    let n = s.unicode_len();
    if n < 4 {
        return false;
    }
    let a = ascii_fold_exec(s.get_char(n - 4));
    let b = ascii_fold_exec(s.get_char(n - 3));
    let c = ascii_fold_exec(s.get_char(n - 2));
    let d = ascii_fold_exec(s.get_char(n - 1));
    a == '.' && b == 'e' && c == 'x' && d == 'e'
}

/// The paths tried, in order, when probing for an external tool: the
/// configured path (or the bare default where it is blank), its `.exe`
/// sibling on hosts that want one, then the default and its sibling.
pub open spec fn tool_candidates_spec(
    path: Seq<char>,
    default: Seq<char>,
    windows: bool,
) -> Seq<Seq<char>> {
    let p = if trim_spec(path).len() == 0 {
        default
    } else {
        path
    };
    seq![p] + (if windows && !ends_with_exe(p) {
        seq![p + ".exe"@]
    } else {
        Seq::empty()
    }) + (if p != default {
        seq![default] + (if windows {
            seq![default + ".exe"@]
        } else {
            Seq::empty()
        })
    } else {
        Seq::empty()
    })
}

/// Lists the paths to probe for an external tool.
pub fn tool_candidates(path: &String, default: &String, windows: bool) -> (r: Vec<String>)
    ensures
        r.deep_view() == tool_candidates_spec(path@, default@, windows),
{
    let trimmed = trim(path.as_str());
    let p: &String = if trimmed.unicode_len() == 0 {
        default
    } else {
        path
    };
    let ghost pv = p@;
    let mut r: Vec<String> = Vec::new();
    push_str_arg(&mut r, p.as_str());
    proof {
        assert(r.deep_view() =~~= seq![pv]);
    }
    if windows && !ends_with_exe_exec(p.as_str()) {
        let mut exe = p.clone();
        exe.append(".exe");
        push_string(&mut r, exe);
    }
    let ghost step2 = seq![pv] + (if windows && !ends_with_exe(pv) {
        seq![pv + ".exe"@]
    } else {
        Seq::<Seq<char>>::empty()
    });
    proof {
        assert(r.deep_view() =~~= step2);
    }
    if !(*p == *default) {
        push_str_arg(&mut r, default.as_str());
        if windows {
            let mut exe = default.clone();
            exe.append(".exe");
            push_string(&mut r, exe);
        }
        proof {
            if windows {
                assert(r.deep_view() =~~= step2 + seq![default@, default@ + ".exe"@]);
            } else {
                assert(r.deep_view() =~~= step2 + seq![default@]);
            }
        }
    }
    proof {
        assert(r.deep_view() =~~= tool_candidates_spec(path@, default@, windows));
    }
    r
}

} // verus!
