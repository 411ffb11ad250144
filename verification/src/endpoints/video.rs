//! Story videos: which paragraph clips of a story are joined, in which
//! order, and the arguments that ask ffmpeg to join them.
use vstd::prelude::*;
use crate::paths::{PathPart, check_path_components, is_repo_path};
use crate::responses::{
    ApiResponse, bad_response, bad_repo_reason, is_bad, not_ok_bad_repo_json_response,
    STATUS_BAD_REQUEST, STATUS_INTERNAL_SERVER_ERROR, STATUS_NOT_FOUND,
};
use crate::text::{
    concat2, parse_i32, parse_i32_spec, push_signed_decimal, push_str, replace, replace_all,
    signed_decimal, split_chars, split_on, string_views,
};

verus! {

/// Fields of a request for a story video.
pub struct ObsStoryForm {
    pub story_n: i32,
    pub from_para_n: Option<i32>,
    pub to_para_n: Option<i32>,
}

/// The paragraphs a story video covers: from the first asked for (else 0)
/// to the last asked for (else 50).
pub fn para_bounds(form: &ObsStoryForm) -> (r: (i32, i32))
    ensures
        r.0 == match form.from_para_n { Some(n) => n, None => 0 },
        r.1 == match form.to_para_n { Some(n) => n, None => 50 },
{
    let first = match form.from_para_n {
        Some(n) => n,
        None => 0,
    };
    let last = match form.to_para_n {
        Some(n) => n,
        None => 50,
    };
    (first, last)
}

/// The story and paragraph numbers that a clip's file name
/// (`obs-para-<story>-<para>.mp4`) gives: its third and fourth `-`
/// separated pieces, the fourth without `.mp4`; `None` when either is not
/// a number.
pub open spec fn clip_numbers(name: Seq<char>) -> Option<(i32, i32)> {
    let pieces = split_chars(name, '-');
    match parse_i32_spec(pieces[2]) {
        Some(story) => match parse_i32_spec(replace_all(pieces[3], ".mp4"@, Seq::empty())) {
            Some(para) => Some((story, para)),
            None => None,
        },
        None => None,
    }
}

/// Whether a clip's name has the pieces that are read: a third piece, and
/// a fourth one whenever the third is a number.
pub open spec fn clip_name_readable(name: Seq<char>) -> bool {
    let pieces = split_chars(name, '-');
    pieces.len() >= 3 && (parse_i32_spec(pieces[2]) is Some ==> pieces.len() >= 4)
}

/// The story and paragraph numbers of a clip.
pub fn clip_file_numbers(name: &str) -> (r: Option<(i32, i32)>)
    requires
        clip_name_readable(name@),
    ensures
        r == clip_numbers(name@),
{
    let pieces = split_on(name, '-');
    proof {
        assert(string_views(pieces@)[2] == pieces@[2]@);
    }
    let story = match parse_i32(pieces[2].as_str()) {
        Some(n) => n,
        None => return None,
    };
    proof {
        assert(string_views(pieces@)[3] == pieces@[3]@);
        reveal_strlit(".mp4");
        reveal_strlit("");
        assert(""@ =~= Seq::<char>::empty());
    }
    let stem = replace(pieces[3].as_str(), ".mp4", "");
    match parse_i32(stem.as_str()) {
        Some(para) => Some((story, para)),
        None => None,
    }
}

/// A clip file found in the story's video directory.
pub struct VideoFile {
    pub name: String,
    pub path: String,
}

/// The model of clip files: names and paths.
pub open spec fn file_views(v: Seq<VideoFile>) -> Seq<(Seq<char>, Seq<char>)> {
    Seq::new(v.len(), |i: int| (v[i].name@, v[i].path@))
}

/// The clips of a story in the paragraph range, by paragraph: where two
/// files give the same paragraph, the later one counts.
pub open spec fn story_clips(files: Seq<(Seq<char>, Seq<char>)>, story: i32, first: i32, last: i32) -> Map<i32, Seq<char>>
    decreases files.len(),
{
    if files.len() == 0 {
        Map::empty()
    } else {
        let before = story_clips(files.drop_last(), story, first, last);
        match clip_numbers(files.last().0) {
            Some((s, p)) => if first <= p <= last && s == story {
                before.insert(p, files.last().1)
            } else {
                before
            },
            None => before,
        }
    }
}

/// A story video joins only clips of that story within the paragraph
/// range, each from a file whose name gives that story and paragraph.
pub proof fn law_story_clips_in_range(files: Seq<(Seq<char>, Seq<char>)>, story: i32, first: i32, last: i32, p: i32)
    requires
        story_clips(files, story, first, last).dom().contains(p),
    ensures
        first <= p <= last,
        exists|j: int| 0 <= j < files.len() && clip_numbers(#[trigger] files[j].0) == Some((story, p))
            && files[j].1 == story_clips(files, story, first, last)[p],
    decreases files.len(),
{
    let init = files.drop_last();
    let before = story_clips(init, story, first, last);
    assert(files.last() == files[files.len() - 1]);
    match clip_numbers(files.last().0) {
        Some((s, q)) => {
            if first <= q <= last && s == story && q == p {
            } else {
                law_story_clips_in_range(init, story, first, last, p);
                let j = choose|j: int| 0 <= j < init.len() && clip_numbers(#[trigger] init[j].0) == Some((story, p))
                    && init[j].1 == before[p];
                assert(init[j] == files[j]);
            }
        },
        None => {
            law_story_clips_in_range(init, story, first, last, p);
            let j = choose|j: int| 0 <= j < init.len() && clip_numbers(#[trigger] init[j].0) == Some((story, p))
                && init[j].1 == before[p];
            assert(init[j] == files[j]);
        },
    }
}

/// Whether paragraph numbers go up strictly along a list of clips.
pub open spec fn strictly_ascending(v: Seq<(i32, String)>) -> bool {
    forall|a: int, b: int| 0 <= a < b < v.len() ==> v[a].0 < v[b].0
}

/// The map a list of clips with distinct paragraphs holds.
pub open spec fn clips_map(v: Seq<(i32, String)>) -> Map<i32, Seq<char>> {
    Map::new(
        |k: i32| exists|j: int| 0 <= j < v.len() && v[j].0 == k,
        |k: i32| v[choose|j: int| 0 <= j < v.len() && v[j].0 == k].1@,
    )
}

proof fn lemma_clips_map_at(v: Seq<(i32, String)>, j: int)
    requires
        strictly_ascending(v),
        0 <= j < v.len(),
    ensures
        clips_map(v).dom().contains(v[j].0),
        clips_map(v)[v[j].0] == v[j].1@,
{
    let k = v[j].0;
    assert(exists|i: int| 0 <= i < v.len() && v[i].0 == k);
    let c = choose|i: int| 0 <= i < v.len() && v[i].0 == k;
    if c < j {
        assert(v[c].0 < v[j].0);
    } else if c > j {
        assert(v[j].0 < v[c].0);
    }
}

/// Records a clip in a list ordered by paragraph, replacing the clip of
/// the same paragraph.
fn put_clip(v: &mut Vec<(i32, String)>, para: i32, path: String)
    requires
        strictly_ascending(old(v)@),
    ensures
        strictly_ascending(final(v)@),
        clips_map(final(v)@) == clips_map(old(v)@).insert(para, path@),
{
    let ghost before = v@;
    let mut pos: usize = 0;
    while pos < v.len() && v[pos].0 < para
        invariant
            pos <= v@.len(),
            v@ == before,
            forall|k: int| 0 <= k < pos ==> v@[k].0 < para,
        decreases v@.len() - pos,
    {
        pos += 1;
    }
    proof {
        assert forall|j: int| 0 <= j < before.len() implies clips_map(before).dom().contains(before[j].0) && clips_map(before)[before[j].0] == before[j].1@ by {
            lemma_clips_map_at(before, j);
        }
    }
    if pos < v.len() && v[pos].0 == para {
        let ghost p = path@;
        v.set(pos, (para, path));
        proof {
            assert forall|a: int, b: int| 0 <= a < b < v@.len() implies v@[a].0 < v@[b].0 by {
                assert(before[a].0 < before[b].0);
            }
            assert forall|j: int| 0 <= j < v@.len() implies clips_map(v@).dom().contains(v@[j].0) && clips_map(v@)[v@[j].0] == v@[j].1@ by {
                lemma_clips_map_at(v@, j);
            }
            assert(clips_map(v@) =~= clips_map(before).insert(para, p)) by {
                assert forall|k: i32| #[trigger] clips_map(v@).dom().contains(k) <==> clips_map(before).insert(para, p).dom().contains(k) by {
                    if clips_map(v@).dom().contains(k) {
                        let j = choose|j: int| 0 <= j < v@.len() && v@[j].0 == k;
                        if j != pos {
                            assert(before[j].0 == k);
                        }
                    }
                    if clips_map(before).dom().contains(k) {
                        let j = choose|j: int| 0 <= j < before.len() && before[j].0 == k;
                        assert(v@[j].0 == k);
                    }
                }
                assert forall|k: i32| #[trigger] clips_map(v@).dom().contains(k) implies clips_map(v@)[k] == clips_map(before).insert(para, p)[k] by {
                    let j = choose|j: int| 0 <= j < v@.len() && v@[j].0 == k;
                    if j != pos {
                        assert(before[j] == v@[j]);
                    }
                }
            }
        }
    } else {
        let ghost p = path@;
        v.insert(pos, (para, path));
        proof {
            assert forall|a: int, b: int| 0 <= a < b < v@.len() implies v@[a].0 < v@[b].0 by {
                if a < pos && b < pos {
                    assert(before[a].0 < before[b].0);
                } else if a < pos && b == pos {
                } else if a < pos {
                    assert(v@[b] == before[b - 1]);
                    if pos < before.len() {
                        assert(before[pos as int].0 > para);
                    }
                    assert(before[a].0 < para);
                } else if a == pos {
                    assert(v@[b] == before[b - 1]);
                    assert(before[pos as int].0 > para);
                    if b - 1 > pos {
                        assert(before[pos as int].0 < before[b - 1].0);
                    }
                } else {
                    assert(before[a - 1].0 < before[b - 1].0);
                }
            }
            assert forall|j: int| 0 <= j < v@.len() implies clips_map(v@).dom().contains(v@[j].0) && clips_map(v@)[v@[j].0] == v@[j].1@ by {
                lemma_clips_map_at(v@, j);
            }
            assert(clips_map(v@) =~= clips_map(before).insert(para, p)) by {
                assert forall|k: i32| #[trigger] clips_map(v@).dom().contains(k) <==> clips_map(before).insert(para, p).dom().contains(k) by {
                    if clips_map(v@).dom().contains(k) {
                        let j = choose|j: int| 0 <= j < v@.len() && v@[j].0 == k;
                        if j < pos {
                            assert(before[j].0 == k);
                        } else if j > pos {
                            assert(before[j - 1].0 == k);
                        }
                    }
                    if clips_map(before).dom().contains(k) {
                        let j = choose|j: int| 0 <= j < before.len() && before[j].0 == k;
                        if j < pos {
                            assert(v@[j].0 == k);
                        } else {
                            assert(v@[j + 1].0 == k);
                        }
                    }
                    if k == para {
                        assert(v@[pos as int].0 == k);
                    }
                }
                assert forall|k: i32| #[trigger] clips_map(v@).dom().contains(k) implies clips_map(v@)[k] == clips_map(before).insert(para, p)[k] by {
                    let j = choose|j: int| 0 <= j < v@.len() && v@[j].0 == k;
                    if j < pos {
                        assert(before[j] == v@[j]);
                    } else if j > pos {
                        assert(before[j - 1] == v@[j]);
                    }
                }
            }
        }
    }
}

/// The clips of a story to join, ordered by paragraph, with the file of
/// each paragraph.
pub fn select_story_clips(files: &Vec<VideoFile>, story: i32, first: i32, last: i32) -> (r: Vec<(i32, String)>)
    requires
        forall|i: int| 0 <= i < files@.len() ==> clip_name_readable(#[trigger] files@[i].name@),
    ensures
        strictly_ascending(r@),
        clips_map(r@) == story_clips(file_views(files@), story, first, last),
{
    let mut out: Vec<(i32, String)> = Vec::new();
    let mut i: usize = 0;
    assert(clips_map(out@) =~= Map::<i32, Seq<char>>::empty());
    while i < files.len()
        invariant
            i <= files@.len(),
            forall|i: int| 0 <= i < files@.len() ==> clip_name_readable(#[trigger] files@[i].name@),
            strictly_ascending(out@),
            clips_map(out@) == story_clips(file_views(files@).take(i as int), story, first, last),
        decreases files@.len() - i,
    {
        let f = &files[i];
        proof {
            assert(file_views(files@).take(i + 1).drop_last() =~= file_views(files@).take(i as int));
            assert(file_views(files@).take(i + 1).last() == (f.name@, f.path@));
        }
        match clip_file_numbers(f.name.as_str()) {
            Some((s, p)) => {
                if first <= p && p <= last && s == story {
                    put_clip(&mut out, p, f.path.clone());
                }
            },
            None => {},
        }
        i += 1;
    }
    assert(file_views(files@).take(files@.len() as int) =~= file_views(files@));
    out
}

/// The ffmpeg arguments that join clips: `-i <path>` for each, then a
/// filter that concatenates the video and audio of the inputs in order
/// (input `i` of `n` is stream `i`, from 0 to `n - 1`), and the mapping of
/// its outputs.
pub open spec fn concat_args(clips: Seq<(i32, Seq<char>)>) -> Seq<Seq<char>> {
    inputs(clips) + seq![
        "-filter_complex"@,
        streams(clips.len()) + "concat=n="@ + crate::text::decimal(clips.len()) + ":v=1:a=1[v][a]"@,
        "-map"@,
        "[v]"@,
        "-map"@,
        "[a]"@,
    ]
}

/// `-i <path>` for each clip.
pub open spec fn inputs(clips: Seq<(i32, Seq<char>)>) -> Seq<Seq<char>>
    decreases clips.len(),
{
    if clips.len() == 0 {
        Seq::empty()
    } else {
        inputs(clips.drop_last()) + seq!["-i"@, clips.last().1]
    }
}

/// `[<i>:v][<i>:a]` for each input `i` of the first `n`, in order.
pub open spec fn streams(n: nat) -> Seq<char>
    decreases n,
{
    if n == 0 {
        Seq::empty()
    } else {
        let d = crate::text::decimal((n - 1) as nat);
        streams((n - 1) as nat) + "["@ + d + ":v]["@ + d + ":a]"@
    }
}

/// The model of a list of clips.
pub open spec fn clip_views(v: Seq<(i32, String)>) -> Seq<(i32, Seq<char>)> {
    Seq::new(v.len(), |i: int| (v[i].0, v[i].1@))
}

/// The ffmpeg arguments that join the clips.
pub fn ffmpeg_concat_args(clips: &Vec<(i32, String)>) -> (r: Vec<String>)
    ensures
        string_views(r@) == concat_args(clip_views(clips@)),
{
    let mut args: Vec<String> = Vec::new();
    let mut filter = String::new();
    let mut i: usize = 0;
    while i < clips.len()
        invariant
            i <= clips@.len(),
            string_views(args@) == inputs(clip_views(clips@).take(i as int)),
            filter@ == streams(i as nat),
        decreases clips@.len() - i,
    {
        let ghost a0 = args@;
        let p = clips[i].0;
        args.push("-i".to_owned());
        let ghost a1 = args@;
        args.push(clips[i].1.clone());
        push_str(&mut filter, "[");
        crate::text::push_decimal(&mut filter, i as u64);
        push_str(&mut filter, ":v][");
        crate::text::push_decimal(&mut filter, i as u64);
        push_str(&mut filter, ":a]");
        proof {
            let cv = clip_views(clips@);
            assert(cv.take(i + 1).drop_last() =~= cv.take(i as int));
            assert(cv.take(i + 1).last() == (p, clips@[i as int].1@));
            crate::text::lemma_string_views_push(a0, a1.last());
            assert(a1 == a0.push(a1.last()));
            crate::text::lemma_string_views_push(a1, args@.last());
            assert(args@ == a1.push(args@.last()));
            reveal_strlit("-i");
        }
        i += 1;
    }
    assert(clip_views(clips@).take(clips@.len() as int) =~= clip_views(clips@));
    let mut last = filter;
    push_str(&mut last, "concat=n=");
    crate::text::push_decimal(&mut last, clips.len() as u64);
    push_str(&mut last, ":v=1:a=1[v][a]");
    let ghost before = args@;
    args.push("-filter_complex".to_owned());
    args.push(last);
    args.push("-map".to_owned());
    args.push("[v]".to_owned());
    args.push("-map".to_owned());
    args.push("[a]".to_owned());
    proof {
        assert(string_views(args@) =~= string_views(before) + seq![
            "-filter_complex"@,
            streams(clips@.len()) + "concat=n="@ + crate::text::decimal(clips@.len()) + ":v=1:a=1[v][a]"@,
            "-map"@,
            "[v]"@,
            "-map"@,
            "[a]"@,
        ]);
    }
    args
}

/// Where a story video is written: `<video_dir>/obs-story-<story>.mp4`.
pub fn story_video_path(video_dir: &str, story: i32) -> (r: String)
    ensures
        r@ == video_dir@ + "/obs-story-"@ + signed_decimal(story as int) + ".mp4"@,
{
    let mut r = concat2(video_dir, "/obs-story-");
    push_signed_decimal(&mut r, story as i64);
    push_str(&mut r, ".mp4");
    r
}

/// The refusal of a story video request: 500 when ffmpeg is missing,
/// else 400 for a path that is not a repository path.
pub fn obs_story_gate(ffmpeg_found: bool, parts: &Vec<PathPart>) -> (r: Option<ApiResponse>)
    ensures
        !ffmpeg_found ==> r is Some && is_bad(r->Some_0, STATUS_INTERNAL_SERVER_ERROR, "ffmpeg not found"@),
        ffmpeg_found && !is_repo_path(parts@) ==> r is Some && is_bad(r->Some_0, STATUS_BAD_REQUEST, bad_repo_reason()),
        ffmpeg_found && is_repo_path(parts@) ==> r is None,
{
    if !ffmpeg_found {
        return Some(bad_response(STATUS_INTERNAL_SERVER_ERROR, "ffmpeg not found".to_owned()));
    }
    if !check_path_components(parts) {
        return Some(not_ok_bad_repo_json_response());
    }
    None
}

/// The 404 reply for a story whose repository is missing.
pub fn repo_not_found(path: &str) -> (r: ApiResponse)
    ensures
        is_bad(r, STATUS_NOT_FOUND, "Repo not found: "@ + path@),
{
    bad_response(STATUS_NOT_FOUND, concat2("Repo not found: ", path))
}

} // verus!
