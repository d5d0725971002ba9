//! Embedded subtitle tracks of a container: which streams are subtitles and
//! how they are described. Sidecar files are the host application's
//! business; the demuxer that lists the streams is the caller's.

use vstd::prelude::*;

verus! {

/// What the demuxer reports of one stream of a container.
pub struct StreamEntry {
    /// Position of the stream in the container.
    pub index: usize,
    /// The stream's medium is subtitles.
    pub is_subtitle: bool,
    /// Name of the stream's codec, when a codec context could be opened.
    pub codec_name: Option<String>,
    /// The stream's `language` metadata tag.
    pub language: Option<String>,
}

/// One embedded subtitle track.
#[derive(Clone, Debug)]
pub struct SubtitleStreamInfo {
    pub index: i32,
    pub language: Option<String>,
    pub codec: String,
}

pub open spec fn opt_view(o: Option<String>) -> Option<Seq<char>> {
    match o {
        Some(s) => Some(s@),
        None => None,
    }
}

/// A track as plain values: index, language, codec.
pub open spec fn info_view(i: SubtitleStreamInfo) -> (i32, Option<Seq<char>>, Seq<char>) {
    (i.index, opt_view(i.language), i.codec@)
}

/// The description of a subtitle stream: its index, its language tag, and
/// its codec name or `unknown`.
pub open spec fn describe(e: StreamEntry) -> (i32, Option<Seq<char>>, Seq<char>) {
    (
        e.index as i32,
        opt_view(e.language),
        match e.codec_name {
            Some(c) => c@,
            None => "unknown"@,
        },
    )
}

/// The subtitle streams of `s`, in order, described.
pub open spec fn subtitle_tracks(s: Seq<StreamEntry>) -> Seq<(i32, Option<Seq<char>>, Seq<char>)>
    decreases s.len(),
{
    if s.len() == 0 {
        Seq::empty()
    } else if s.last().is_subtitle {
        subtitle_tracks(s.drop_last()).push(describe(s.last()))
    } else {
        subtitle_tracks(s.drop_last())
    }
}

/// The listed tracks are exactly the subtitle streams of the container, in
/// stream order, each described by its index, language and codec: their
/// number is the number of streams marked as subtitles, and every such
/// stream appears among them with its own index.
pub proof fn lemma_tracks_are_the_subtitle_streams(s: Seq<StreamEntry>)
    ensures
        subtitle_tracks(s) == s.filter(|e: StreamEntry| e.is_subtitle).map_values(|e: StreamEntry| describe(e)),
        subtitle_tracks(s).len() == s.filter(|e: StreamEntry| e.is_subtitle).len(),
        forall|k: int|
            0 <= k < s.len() && s[k].is_subtitle ==> exists|j: int|
                0 <= j < subtitle_tracks(s).len() && #[trigger] subtitle_tracks(s)[j] == describe(s[k])
                    && subtitle_tracks(s)[j].0 == s[k].index as i32,
    decreases s.len(),
{
    let pred = |e: StreamEntry| e.is_subtitle;
    let f = |e: StreamEntry| describe(e);
    reveal(Seq::filter);
    if s.len() > 0 {
        lemma_tracks_are_the_subtitle_streams(s.drop_last());
        assert(subtitle_tracks(s) =~= s.filter(pred).map_values(f));
    } else {
        assert(subtitle_tracks(s) =~= s.filter(pred).map_values(f));
    }
    assert forall|k: int| 0 <= k < s.len() && s[k].is_subtitle implies exists|j: int|
        0 <= j < subtitle_tracks(s).len() && #[trigger] subtitle_tracks(s)[j] == describe(s[k])
            && subtitle_tracks(s)[j].0 == s[k].index as i32 by {
        s.lemma_filter_contains(pred, k);
        let fl = s.filter(pred);
        let j = choose|j: int| 0 <= j < fl.len() && fl[j] == s[k];
        assert(subtitle_tracks(s)[j] == describe(s[k]));
    }
}

fn clone_opt(o: &Option<String>) -> (r: Option<String>)
    ensures
        opt_view(r) == opt_view(*o),
{
    match o {
        Some(s) => Some(s.clone()),
        None => None,
    }
}

/// The embedded subtitle tracks among the container's streams, in stream
/// order; empty when there are none.
pub fn list_subtitle_streams(streams: &[StreamEntry]) -> (out: Vec<SubtitleStreamInfo>)
    ensures
        out@.map_values(|i: SubtitleStreamInfo| info_view(i)) == subtitle_tracks(streams@),
{
    let mut out: Vec<SubtitleStreamInfo> = Vec::new();
    let mut k: usize = 0;
    assert(streams@.subrange(0, 0) =~= Seq::<StreamEntry>::empty());
    while k < streams.len()
        invariant
            k <= streams@.len(),
            out@.map_values(|i: SubtitleStreamInfo| info_view(i)) == subtitle_tracks(streams@.subrange(0, k as int)),
        decreases streams@.len() - k,
    {
        let e = &streams[k];
        let ghost prefix = streams@.subrange(0, k + 1);
        assert(prefix.drop_last() =~= streams@.subrange(0, k as int));
        assert(prefix.last() == streams@[k as int]);
        if e.is_subtitle {
            let codec = match &e.codec_name {
                Some(c) => c.clone(),
                None => String::from_str("unknown"),
            };
            let info = SubtitleStreamInfo { index: e.index as i32, language: clone_opt(&e.language), codec };
            let ghost before = out@;
            out.push(info);
            assert(out@.map_values(|i: SubtitleStreamInfo| info_view(i)) =~= before.map_values(
                |i: SubtitleStreamInfo| info_view(i),
            ).push(describe(*e)));
        }
        k = k + 1;
    }
    assert(streams@.subrange(0, streams@.len() as int) =~= streams@);
    out
}

} // verus!
