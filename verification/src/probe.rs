//! What probing a source found.

use vstd::prelude::*;

verus! {

/// The kind of a stream.
#[derive(Debug, Clone, Copy, PartialEq, Eq, Structural)]
pub enum CodecType {
    Video,
    Audio,
    Subtitle,
    Other,
}

/// A stream of pictures: video, or subtitles.
#[derive(Debug, Clone, Copy, PartialEq, Eq, Structural)]
pub struct ProbeResultVideoStream {
    pub stream_index: u32,
    pub codec_type: CodecType,
    /// Whether the subtitles are pictures rather than text.
    pub subtitle_image: bool,
}

impl ProbeResultVideoStream {
    /// Whether the subtitles are pictures rather than text.
    pub fn is_subtitle_image(&self) -> (r: bool)
        ensures
            r == self.subtitle_image,
    {
        self.subtitle_image
    }
}

/// A stream of sound.
#[derive(Debug, Clone, Copy, PartialEq, Eq, Structural)]
pub struct ProbeResultAudioStream {
    pub stream_index: u32,
    pub channels: u32,
}

/// A stream of a source.
#[derive(Debug, Clone, Copy, PartialEq, Eq, Structural)]
pub enum ProbeResultStream {
    Video(ProbeResultVideoStream),
    Audio(ProbeResultAudioStream),
}

/// The streams of a source.
#[derive(Debug)]
pub struct ProbeResult {
    pub streams: Vec<ProbeResultStream>,
    /// Whether the video is a single picture.
    pub still_image: bool,
}

impl ProbeResult {
    /// Whether the video is a single picture.
    pub fn is_still_image(&self) -> (r: bool)
        ensures
            r == self.still_image,
    {
        self.still_image
    }

    /// Whether two results hold the same streams.
    pub open spec fn same(&self, other: &ProbeResult) -> bool {
        self.streams@ == other.streams@ && self.still_image == other.still_image
    }
}

impl Clone for ProbeResult {
    fn clone(&self) -> (r: Self)
        ensures
            r.same(self),
    {
        let mut streams: Vec<ProbeResultStream> = Vec::new();
        for i in 0..self.streams.len()
            invariant
                streams@ == self.streams@.take(i as int),
        {
            streams.push(self.streams[i]);
        }
        assert(self.streams@.take(self.streams@.len() as int) =~= self.streams@);
        ProbeResult { streams, still_image: self.still_image }
    }
}

/// The picture streams of one kind, in their order.
pub open spec fn video_streams(streams: Seq<ProbeResultStream>, kind: CodecType) -> Seq<
    ProbeResultVideoStream,
>
    decreases streams.len(),
{
    if streams.len() == 0 {
        Seq::empty()
    } else {
        let before = video_streams(streams.drop_last(), kind);
        match streams.last() {
            ProbeResultStream::Video(v) if v.codec_type == kind => before.push(v),
            _ => before,
        }
    }
}

/// The sound streams, in their order.
pub open spec fn audio_streams(streams: Seq<ProbeResultStream>) -> Seq<ProbeResultAudioStream>
    decreases streams.len(),
{
    if streams.len() == 0 {
        Seq::empty()
    } else {
        let before = audio_streams(streams.drop_last());
        match streams.last() {
            ProbeResultStream::Audio(a) => before.push(a),
            _ => before,
        }
    }
}

/// Whether `i` is the first position in a list at which a stream has this index.
pub open spec fn first_position(all: Seq<ProbeResultVideoStream>, index: u32, i: int) -> bool {
    &&& 0 <= i < all.len()
    &&& all[i].stream_index == index
    &&& forall|j: int| 0 <= j < i ==> (#[trigger] all[j]).stream_index != index
}

/// Whether `v` is the first of the streams to have this index.
pub open spec fn first_video_at(
    all: Seq<ProbeResultVideoStream>,
    index: u32,
    v: ProbeResultVideoStream,
) -> bool {
    exists|i: int| #[trigger] first_position(all, index, i) && all[i] == v
}

/// Whether some of the streams has this index.
pub open spec fn has_video_at(all: Seq<ProbeResultVideoStream>, index: u32) -> bool {
    exists|i: int| 0 <= i < all.len() && (#[trigger] all[i]).stream_index == index
}

/// Whether `i` is the first position in a list at which the index is the lowest.
pub open spec fn lowest_position(all: Seq<ProbeResultVideoStream>, i: int) -> bool {
    &&& 0 <= i < all.len()
    &&& forall|j: int|
        0 <= j < all.len() ==> all[i].stream_index <= (#[trigger] all[j]).stream_index
    &&& forall|j: int| 0 <= j < i ==> all[i].stream_index < (#[trigger] all[j]).stream_index
}

/// Whether `v` is the first of the streams with the lowest index.
pub open spec fn lowest_video(all: Seq<ProbeResultVideoStream>, v: ProbeResultVideoStream) -> bool {
    exists|i: int| #[trigger] lowest_position(all, i) && all[i] == v
}

/// Whether `i` is the first position in a list at which a stream has this index.
pub open spec fn first_audio_position(
    all: Seq<ProbeResultAudioStream>,
    index: u32,
    i: int,
) -> bool {
    &&& 0 <= i < all.len()
    &&& all[i].stream_index == index
    &&& forall|j: int| 0 <= j < i ==> (#[trigger] all[j]).stream_index != index
}

/// Whether `a` is the first of the streams to have this index.
pub open spec fn first_audio_at(
    all: Seq<ProbeResultAudioStream>,
    index: u32,
    a: ProbeResultAudioStream,
) -> bool {
    exists|i: int| #[trigger] first_audio_position(all, index, i) && all[i] == a
}

/// Whether some of the streams has this index.
pub open spec fn has_audio_at(all: Seq<ProbeResultAudioStream>, index: u32) -> bool {
    exists|i: int| 0 <= i < all.len() && (#[trigger] all[i]).stream_index == index
}

/// Whether `i` is the first position in a list at which there are the most channels.
pub open spec fn widest_position(all: Seq<ProbeResultAudioStream>, i: int) -> bool {
    &&& 0 <= i < all.len()
    &&& forall|j: int| 0 <= j < all.len() ==> (#[trigger] all[j]).channels <= all[i].channels
    &&& forall|j: int| 0 <= j < i ==> (#[trigger] all[j]).channels < all[i].channels
}

/// Whether `a` is the first of the streams with the most channels.
pub open spec fn widest_audio(all: Seq<ProbeResultAudioStream>, a: ProbeResultAudioStream) -> bool {
    exists|i: int| #[trigger] widest_position(all, i) && all[i] == a
}

/// What a walk over the picture streams of one kind found.
pub(crate) struct VideoWalk<'a> {
    pub count: usize,
    /// The first stream with the wanted index.
    pub matched: Option<&'a ProbeResultVideoStream>,
    /// The first stream with the lowest index.
    pub lowest: Option<&'a ProbeResultVideoStream>,
}

impl<'a> VideoWalk<'a> {
    /// Whether this is what a walk over `all` finds.
    pub(crate) open spec fn of(
        &self,
        all: Seq<ProbeResultVideoStream>,
        wanted: Option<u32>,
    ) -> bool {
        &&& self.count == all.len()
        &&& match self.matched {
            Some(v) => wanted matches Some(w) && first_video_at(all, w, *v),
            None => wanted matches Some(w) ==> !has_video_at(all, w),
        }
        &&& match self.lowest {
            Some(v) => lowest_video(all, *v),
            None => all.len() == 0,
        }
    }
}

/// Walks over the picture streams of one kind.
pub(crate) fn walk_video_streams<'a>(
    streams: &'a Vec<ProbeResultStream>,
    kind: CodecType,
    wanted: Option<u32>,
) -> (r: VideoWalk<'a>)
    ensures
        r.of(video_streams(streams@, kind), wanted),
{
    let mut walk = VideoWalk { count: 0, matched: None, lowest: None };
    for i in 0..streams.len()
        invariant
            walk.of(video_streams(streams@.take(i as int), kind), wanted),
            walk.count <= i,
    {
        let ghost before = video_streams(streams@.take(i as int), kind);
        let ghost after = video_streams(streams@.take(i + 1), kind);
        assert(streams@.take(i + 1).drop_last() =~= streams@.take(i as int));
        if let ProbeResultStream::Video(v) = &streams[i] {
            if v.codec_type == kind {
                let n: usize = walk.count;
                assert(after == before.push(*v));
                assert(after[n as int] == *v);
                assert(forall|j: int| 0 <= j < n ==> after[j] == before[j]);
                proof {
                    if let (Some(m), Some(w)) = (walk.matched, wanted) {
                        let k = choose|k: int|
                            #[trigger] first_position(before, w, k) && before[k] == *m;
                        assert(first_position(after, w, k));
                    }
                    if let Some(l) = walk.lowest {
                        let k = choose|k: int|
                            #[trigger] lowest_position(before, k) && before[k] == *l;
                        if l.stream_index <= v.stream_index {
                            assert(lowest_position(after, k));
                        } else {
                            assert(lowest_position(after, n as int));
                        }
                    } else {
                        assert(lowest_position(after, n as int));
                    }
                }
                if let Some(w) = wanted {
                    if walk.matched.is_none() && v.stream_index == w {
                        assert(first_position(after, w, n as int));
                        walk.matched = Some(v);
                    }
                }
                let lower = match walk.lowest {
                    Some(l) => v.stream_index < l.stream_index,
                    None => true,
                };
                if lower {
                    walk.lowest = Some(v);
                }
                walk.count = n + 1;
            }
        }
    }
    assert(streams@.take(streams@.len() as int) =~= streams@);
    walk
}

/// What a walk over the sound streams found.
pub(crate) struct AudioWalk<'a> {
    /// The first stream with the wanted index.
    pub matched: Option<&'a ProbeResultAudioStream>,
    /// The first stream with the most channels.
    pub widest: Option<&'a ProbeResultAudioStream>,
}

impl<'a> AudioWalk<'a> {
    /// Whether this is what a walk over `all` finds.
    pub(crate) open spec fn of(
        &self,
        all: Seq<ProbeResultAudioStream>,
        wanted: Option<u32>,
    ) -> bool {
        &&& match self.matched {
            Some(a) => wanted matches Some(w) && first_audio_at(all, w, *a),
            None => wanted matches Some(w) ==> !has_audio_at(all, w),
        }
        &&& match self.widest {
            Some(a) => widest_audio(all, *a),
            None => all.len() == 0,
        }
    }
}

/// Walks over the sound streams.
pub(crate) fn walk_audio_streams<'a>(
    streams: &'a Vec<ProbeResultStream>,
    wanted: Option<u32>,
) -> (r: AudioWalk<'a>)
    ensures
        r.of(audio_streams(streams@), wanted),
{
    let mut walk = AudioWalk { matched: None, widest: None };
    for i in 0..streams.len()
        invariant
            walk.of(audio_streams(streams@.take(i as int)), wanted),
    {
        let ghost before = audio_streams(streams@.take(i as int));
        let ghost after = audio_streams(streams@.take(i + 1));
        assert(streams@.take(i + 1).drop_last() =~= streams@.take(i as int));
        if let ProbeResultStream::Audio(a) = &streams[i] {
            assert(after == before.push(*a));
            assert(after[before.len() as int] == *a);
            assert(forall|j: int| 0 <= j < before.len() ==> after[j] == before[j]);
            proof {
                if let (Some(m), Some(w)) = (walk.matched, wanted) {
                    let k = choose|k: int|
                        #[trigger] first_audio_position(before, w, k) && before[k] == *m;
                    assert(first_audio_position(after, w, k));
                }
                if let Some(l) = walk.widest {
                    let k = choose|k: int| #[trigger] widest_position(before, k) && before[k] == *l;
                    if a.channels <= l.channels {
                        assert(widest_position(after, k));
                    } else {
                        assert(widest_position(after, before.len() as int));
                    }
                } else {
                    assert(widest_position(after, before.len() as int));
                }
            }
            if let Some(w) = wanted {
                if walk.matched.is_none() && a.stream_index == w {
                    assert(first_audio_position(after, w, before.len() as int));
                    walk.matched = Some(a);
                }
            }
            let wider = match walk.widest {
                Some(b) => a.channels > b.channels,
                None => true,
            };
            if wider {
                walk.widest = Some(a);
            }
        }
    }
    assert(streams@.take(streams@.len() as int) =~= streams@);
    walk
}

} // verus!
