//! HLS media playlists: the playlist value and its text.

use crate::text::{decimal, fixed6, push_decimal, push_fixed6, six_digits};
use vstd::prelude::*;
use vstd::string::*;

verus! {

/// One media segment of a playlist.
pub struct MediaSegment {
    /// Length of the segment in microseconds.
    pub duration: u64,
    /// Where the segment is fetched from, relative to the playlist.
    pub uri: String,
}

/// An HLS media playlist.
pub struct MediaPlaylist {
    pub version: u8,
    /// Whole seconds.
    pub target_duration: u64,
    pub media_sequence: u64,
    pub segments: Vec<MediaSegment>,
    pub end_list: bool,
    pub playlist_type: Option<String>,
    pub independent_segments: bool,
    /// Initialization segment for fMP4 (`EXT-X-MAP`).
    pub init_segment: Option<String>,
}

/// The characters of an optional string.
pub open spec fn opt_text(s: Option<String>) -> Option<Seq<char>> {
    match s {
        Some(t) => Some(t@),
        None => None,
    }
}

/// The characters of an optional string slice.
pub open spec fn opt_str_text(s: Option<&str>) -> Option<Seq<char>> {
    match s {
        Some(t) => Some(t@),
        None => None,
    }
}

/// The text made of `lines`, each followed by a line feed.
pub open spec fn join_lines(lines: Seq<Seq<char>>) -> Seq<char>
    decreases lines.len(),
{
    if lines.len() == 0 {
        Seq::empty()
    } else {
        join_lines(lines.drop_last()) + lines.last() + seq!['\n']
    }
}

/// The `#EXTINF` line of a segment that lasts `micros` microseconds.
pub open spec fn extinf_line(micros: nat) -> Seq<char> {
    "#EXTINF:"@ + fixed6(micros) + ","@
}

/// The `#EXT-X-MAP` line that names `uri` as the initialization segment.
pub open spec fn map_line(uri: Seq<char>) -> Seq<char> {
    "#EXT-X-MAP:URI=\""@ + uri + "\""@
}

/// The file name of the media segment with index `i`.
pub open spec fn segment_uri(i: nat) -> Seq<char> {
    "segment_"@ + decimal(i) + ".mp4"@
}

/// The four lines that open every playlist.
pub open spec fn opening_lines(version: nat, target_duration: nat, media_sequence: nat) -> Seq<
    Seq<char>,
> {
    seq![
        "#EXTM3U"@,
        "#EXT-X-VERSION:"@ + decimal(version),
        "#EXT-X-TARGETDURATION:"@ + decimal(target_duration),
        "#EXT-X-MEDIA-SEQUENCE:"@ + decimal(media_sequence),
    ]
}

/// The playlist-type line, where a type is set.
pub open spec fn type_lines(playlist_type: Option<Seq<char>>) -> Seq<Seq<char>> {
    match playlist_type {
        Some(t) => seq!["#EXT-X-PLAYLIST-TYPE:"@ + t],
        None => Seq::empty(),
    }
}

/// The independent-segments line, where the flag is set.
pub open spec fn independent_lines(independent_segments: bool) -> Seq<Seq<char>> {
    if independent_segments {
        seq!["#EXT-X-INDEPENDENT-SEGMENTS"@]
    } else {
        Seq::empty()
    }
}

/// The map line, where an initialization segment is named.
pub open spec fn map_lines(init_segment: Option<Seq<char>>) -> Seq<Seq<char>> {
    match init_segment {
        Some(u) => seq![map_line(u)],
        None => Seq::empty(),
    }
}

/// The lines of the playlist head, down to the optional map line.
pub open spec fn head_lines(
    version: nat,
    target_duration: nat,
    media_sequence: nat,
    playlist_type: Option<Seq<char>>,
    independent_segments: bool,
    init_segment: Option<Seq<char>>,
) -> Seq<Seq<char>> {
    opening_lines(version, target_duration, media_sequence) + type_lines(playlist_type)
        + independent_lines(independent_segments) + map_lines(init_segment)
}

/// Two lines for each segment, in order: its `#EXTINF` line, then its URI.
pub open spec fn segment_lines(segments: Seq<MediaSegment>) -> Seq<Seq<char>>
    decreases segments.len(),
{
    if segments.len() == 0 {
        Seq::empty()
    } else {
        segment_lines(segments.drop_last()).push(
            extinf_line(segments.last().duration as nat),
        ).push(segments.last().uri@)
    }
}

/// The closing line, where the playlist has one.
pub open spec fn tail_lines(end_list: bool) -> Seq<Seq<char>> {
    if end_list {
        seq!["#EXT-X-ENDLIST"@]
    } else {
        Seq::empty()
    }
}

/// `join_lines` of a sequence with one more line.
pub proof fn lemma_join_push(lines: Seq<Seq<char>>, line: Seq<char>)
    ensures
        join_lines(lines.push(line)) == join_lines(lines) + line + seq!['\n'],
{
    assert(lines.push(line).drop_last() =~= lines);
}

/// `join_lines` distributes over concatenation.
pub proof fn lemma_join_concat(a: Seq<Seq<char>>, b: Seq<Seq<char>>)
    ensures
        join_lines(a + b) == join_lines(a) + join_lines(b),
    decreases b.len(),
{
    if b.len() == 0 {
        assert(a + b =~= a);
        assert(join_lines(a) + join_lines(b) =~= join_lines(a));
    } else {
        lemma_join_concat(a, b.drop_last());
        assert((a + b).drop_last() =~= a + b.drop_last());
        assert((a + b).last() == b.last());
        assert(join_lines(a + b) =~= join_lines(a) + join_lines(b));
    }
}

/// Appends `line` and a line feed to `out`.
fn push_line(out: &mut String, line: &str)
    ensures
        final(out)@ == old(out)@ + line@ + seq!['\n'],
{
    out.append(line);
    out.append("\n");
    proof {
        reveal_strlit("\n");
        assert("\n"@ =~= seq!['\n']);
    }
}

impl MediaPlaylist {
    /// All lines of the playlist, in order.
    pub open spec fn lines(&self) -> Seq<Seq<char>> {
        head_lines(
            self.version as nat,
            self.target_duration as nat,
            self.media_sequence as nat,
            opt_text(self.playlist_type),
            self.independent_segments,
            opt_text(self.init_segment),
        ) + segment_lines(self.segments@) + tail_lines(self.end_list)
    }

    /// The playlist as text.
    pub open spec fn text(&self) -> Seq<char> {
        join_lines(self.lines())
    }

    /// An empty version 7 playlist that ends with an end-list tag.
    pub fn new(target_duration: u64) -> (p: Self)
        ensures
            p.version == 7,
            p.target_duration == target_duration,
            p.media_sequence == 0,
            p.segments@ == Seq::<MediaSegment>::empty(),
            p.end_list,
            p.playlist_type is None,
            !p.independent_segments,
            p.init_segment is None,
    {
        MediaPlaylist {
            version: 7,
            target_duration,
            media_sequence: 0,
            segments: Vec::new(),
            end_list: true,
            playlist_type: None,
            independent_segments: false,
            init_segment: None,
        }
    }

    /// Adds a segment after those already listed.
    pub fn add_segment(&mut self, duration: u64, uri: String)
        ensures
            final(self).segments@ == old(self).segments@.push((MediaSegment { duration, uri })),
            final(self).version == old(self).version,
            final(self).target_duration == old(self).target_duration,
            final(self).media_sequence == old(self).media_sequence,
            final(self).end_list == old(self).end_list,
            final(self).playlist_type == old(self).playlist_type,
            final(self).independent_segments == old(self).independent_segments,
            final(self).init_segment == old(self).init_segment,
    {
        self.segments.push(MediaSegment { duration, uri });
    }

    /// Appends the four opening lines to `out`.
    fn write_opening(&self, out: &mut String)
        ensures
            final(out)@ == old(out)@ + join_lines(
                opening_lines(
                    self.version as nat,
                    self.target_duration as nat,
                    self.media_sequence as nat,
                ),
            ),
    {
        let ghost base = out@;
        let ghost l0 = Seq::<Seq<char>>::empty();
        push_line(out, "#EXTM3U");
        let ghost l1 = l0.push("#EXTM3U"@);
        proof {
            lemma_join_push(l0, "#EXTM3U"@);
            assert(out@ =~= base + join_lines(l1));
        }
        let mut line = String::from_str("#EXT-X-VERSION:");
        push_decimal(&mut line, self.version as u64);
        push_line(out, line.as_str());
        let ghost l2 = l1.push(line@);
        proof {
            lemma_join_push(l1, line@);
            assert(out@ =~= base + join_lines(l2));
        }
        let mut line = String::from_str("#EXT-X-TARGETDURATION:");
        push_decimal(&mut line, self.target_duration);
        push_line(out, line.as_str());
        let ghost l3 = l2.push(line@);
        proof {
            lemma_join_push(l2, line@);
            assert(out@ =~= base + join_lines(l3));
        }
        let mut line = String::from_str("#EXT-X-MEDIA-SEQUENCE:");
        push_decimal(&mut line, self.media_sequence);
        push_line(out, line.as_str());
        let ghost l4 = l3.push(line@);
        proof {
            lemma_join_push(l3, line@);
            assert(out@ =~= base + join_lines(l4));
            assert(l4 =~= opening_lines(
                self.version as nat,
                self.target_duration as nat,
                self.media_sequence as nat,
            ));
        }
    }

    /// Appends the optional head lines to `out`.
    fn write_options(&self, out: &mut String)
        ensures
            final(out)@ == old(out)@ + join_lines(type_lines(opt_text(self.playlist_type)))
                + join_lines(independent_lines(self.independent_segments)) + join_lines(
                map_lines(opt_text(self.init_segment)),
            ),
    {
        let ghost base = out@;
        let ghost none = Seq::<Seq<char>>::empty();
        assert(join_lines(none) =~= Seq::<char>::empty());
        if let Some(pt) = &self.playlist_type {
            let mut line = String::from_str("#EXT-X-PLAYLIST-TYPE:");
            line.append(pt.as_str());
            push_line(out, line.as_str());
            proof {
                lemma_join_push(none, line@);
                assert(none.push(line@) =~= type_lines(opt_text(self.playlist_type)));
            }
        }
        let ghost typed = join_lines(type_lines(opt_text(self.playlist_type)));
        assert(out@ =~= base + typed);
        if self.independent_segments {
            push_line(out, "#EXT-X-INDEPENDENT-SEGMENTS");
            proof {
                lemma_join_push(none, "#EXT-X-INDEPENDENT-SEGMENTS"@);
                assert(none.push("#EXT-X-INDEPENDENT-SEGMENTS"@) =~= independent_lines(
                    self.independent_segments,
                ));
            }
        }
        let ghost flagged = join_lines(independent_lines(self.independent_segments));
        assert(out@ =~= base + typed + flagged);
        if let Some(init) = &self.init_segment {
            let mut line = String::from_str("#EXT-X-MAP:URI=\"");
            line.append(init.as_str());
            line.append("\"");
            push_line(out, line.as_str());
            proof {
                assert(line@ =~= map_line(init@));
                lemma_join_push(none, line@);
                assert(none.push(line@) =~= map_lines(opt_text(self.init_segment)));
            }
        }
        assert(out@ =~= base + typed + flagged + join_lines(
            map_lines(opt_text(self.init_segment)),
        ));
    }

    /// Appends the two lines of each segment to `out`.
    fn write_segments(&self, out: &mut String)
        ensures
            final(out)@ == old(out)@ + join_lines(segment_lines(self.segments@)),
    {
        let ghost base = out@;
        let n: usize = self.segments.len();
        let mut i: usize = 0;
        assert(self.segments@.take(0) =~= Seq::<MediaSegment>::empty());
        assert(out@ =~= base + join_lines(segment_lines(self.segments@.take(0))));
        while i < n
            invariant
                n == self.segments@.len(),
                i <= n,
                out@ == base + join_lines(segment_lines(self.segments@.take(i as int))),
            decreases n - i,
        {
            let segment = &self.segments[i];
            let mut line = String::from_str("#EXTINF:");
            push_fixed6(&mut line, segment.duration);
            line.append(",");
            push_line(out, line.as_str());
            push_line(out, segment.uri.as_str());
            proof {
                let before = self.segments@.take(i as int);
                let after = self.segments@.take(i + 1);
                let ls = segment_lines(before);
                assert(after.drop_last() =~= before);
                assert(after.last() == self.segments@[i as int]);
                assert(line@ =~= extinf_line(segment.duration as nat));
                lemma_join_push(ls, line@);
                lemma_join_push(ls.push(line@), segment.uri@);
                assert(segment_lines(after) == ls.push(line@).push(segment.uri@));
                assert(out@ =~= base + join_lines(segment_lines(after)));
            }
            i = i + 1;
        }
        assert(self.segments@.take(n as int) =~= self.segments@);
    }

    /// Appends the playlist's text to `out`.
    pub fn write_to(&self, out: &mut String)
        ensures
            final(out)@ == old(out)@ + self.text(),
    {
        let ghost base = out@;
        self.write_opening(out);
        self.write_options(out);
        self.write_segments(out);
        if self.end_list {
            push_line(out, "#EXT-X-ENDLIST");
            proof {
                lemma_join_push(Seq::<Seq<char>>::empty(), "#EXT-X-ENDLIST"@);
                assert(Seq::<Seq<char>>::empty().push("#EXT-X-ENDLIST"@) =~= tail_lines(
                    self.end_list,
                ));
            }
        }
        proof {
            let a = opening_lines(
                self.version as nat,
                self.target_duration as nat,
                self.media_sequence as nat,
            );
            let b = type_lines(opt_text(self.playlist_type));
            let c = independent_lines(self.independent_segments);
            let d = map_lines(opt_text(self.init_segment));
            let e = segment_lines(self.segments@);
            let f = tail_lines(self.end_list);
            assert(join_lines(Seq::<Seq<char>>::empty()) =~= Seq::<char>::empty());
            assert(join_lines(f) =~= if self.end_list {
                "#EXT-X-ENDLIST"@ + seq!['\n']
            } else {
                Seq::<char>::empty()
            });
            lemma_join_concat(a, b);
            lemma_join_concat(a + b, c);
            lemma_join_concat(a + b + c, d);
            lemma_join_concat(a + b + c + d, e);
            lemma_join_concat(a + b + c + d + e, f);
            assert(out@ =~= base + join_lines(a) + join_lines(b) + join_lines(c) + join_lines(d)
                + join_lines(e) + join_lines(f));
        }
    }
}

/// The longest of `durations`, zero where there is none.
pub open spec fn max_duration(durations: Seq<u64>) -> nat
    decreases durations.len(),
{
    if durations.len() == 0 {
        0
    } else {
        let rest = max_duration(durations.drop_last());
        if durations.last() as nat > rest {
            durations.last() as nat
        } else {
            rest
        }
    }
}

/// Microseconds rounded up to whole seconds.
pub open spec fn ceil_seconds(micros: nat) -> nat {
    (micros + 999999) / 1000000
}

/// The target duration of a playlist of segments that last `durations`.
pub open spec fn target_duration(durations: Seq<u64>) -> nat {
    ceil_seconds(max_duration(durations))
}

/// The `#EXTINF` and URI lines of segments that last `durations`, numbered from zero.
pub open spec fn media_lines(durations: Seq<u64>) -> Seq<Seq<char>>
    decreases durations.len(),
{
    if durations.len() == 0 {
        Seq::empty()
    } else {
        media_lines(durations.drop_last()).push(extinf_line(durations.last() as nat)).push(
            segment_uri((durations.len() - 1) as nat),
        )
    }
}

/// The lines of the VOD playlist of segments that last `durations`.
pub open spec fn playlist_lines(durations: Seq<u64>, init_uri: Option<Seq<char>>) -> Seq<
    Seq<char>,
> {
    head_lines(7, target_duration(durations), 0, Some("VOD"@), true, init_uri) + media_lines(
        durations,
    ) + tail_lines(true)
}

/// The text of the VOD playlist of segments that last `durations`.
pub open spec fn playlist_text(durations: Seq<u64>, init_uri: Option<Seq<char>>) -> Seq<char> {
    join_lines(playlist_lines(durations, init_uri))
}

/// Every duration is at most `max_duration`, which one of them attains.
pub proof fn lemma_max_duration(durations: Seq<u64>)
    ensures
        forall|i: int| 0 <= i < durations.len() ==> durations[i] as nat <= max_duration(durations),
        durations.len() > 0 ==> exists|i: int|
            0 <= i < durations.len() && durations[i] as nat == max_duration(durations),
        durations.len() == 0 ==> max_duration(durations) == 0,
    decreases durations.len(),
{
    if durations.len() > 0 {
        let rest = durations.drop_last();
        lemma_max_duration(rest);
        assert forall|i: int| 0 <= i < durations.len() implies durations[i] as nat
            <= max_duration(durations) by {
            if i < rest.len() {
                assert(rest[i] == durations[i]);
            }
        }
        if durations.last() as nat > max_duration(rest) || rest.len() == 0 {
            assert(durations[durations.len() - 1] as nat == max_duration(durations));
        } else {
            let j = choose|j: int| 0 <= j < rest.len() && rest[j] as nat == max_duration(rest);
            assert(durations[j] == rest[j]);
        }
    }
}

/// The target duration is the longest segment rounded up to whole seconds:
/// no segment is longer than it, and the longest is less than one second
/// shorter.
pub proof fn lemma_target_duration_is_ceiling(durations: Seq<u64>)
    ensures
        forall|i: int|
            0 <= i < durations.len() ==> durations[i] as nat <= target_duration(durations)
                * 1000000,
        durations.len() > 0 ==> exists|i: int|
            0 <= i < durations.len() && target_duration(durations) * 1000000 < durations[i]
                + 1000000,
        durations.len() == 0 ==> target_duration(durations) == 0,
{
    lemma_max_duration(durations);
    let m = max_duration(durations);
    let t = target_duration(durations);
    assert(m <= t * 1000000 < m + 1000000) by (nonlinear_arith)
        requires
            t == (m + 999999) / 1000000,
    ;
    if durations.len() > 0 {
        let j = choose|j: int| 0 <= j < durations.len() && durations[j] as nat == m;
        assert(t * 1000000 < durations[j] + 1000000);
    }
}

/// The target duration of segments that last `durations`, in whole seconds.
pub fn target_duration_of(durations: &Vec<u64>) -> (t: u64)
    ensures
        t as nat == target_duration(durations@),
{
    let n: usize = durations.len();
    let mut longest: u64 = 0;
    let mut i: usize = 0;
    assert(durations@.take(0) =~= Seq::<u64>::empty());
    while i < n
        invariant
            n == durations@.len(),
            i <= n,
            longest as nat == max_duration(durations@.take(i as int)),
        decreases n - i,
    {
        proof {
            assert(durations@.take(i + 1).drop_last() =~= durations@.take(i as int));
        }
        if durations[i] > longest {
            longest = durations[i];
        }
        i = i + 1;
    }
    assert(durations@.take(n as int) =~= durations@);
    let whole: u64 = longest / 1000000;
    if longest % 1000000 > 0 {
        whole + 1
    } else {
        whole
    }
}

/// The VOD playlist of a video whose segments last `durations`, with the
/// initialization segment `init_uri` where one is given.
pub fn build_playlist(durations: &Vec<u64>, init_uri: Option<&str>) -> (text: String)
    ensures
        text@ == playlist_text(durations@, opt_str_text(init_uri)),
{
    let mut playlist = MediaPlaylist::new(target_duration_of(durations));
    playlist.playlist_type = Some(String::from_str("VOD"));
    playlist.independent_segments = true;
    playlist.init_segment = match init_uri {
        Some(uri) => Some(String::from_str(uri)),
        None => None,
    };
    let n: usize = durations.len();
    let mut i: usize = 0;
    assert(durations@.take(0) =~= Seq::<u64>::empty());
    while i < n
        invariant
            n == durations@.len(),
            i <= n,
            playlist.version == 7,
            playlist.target_duration as nat == target_duration(durations@),
            playlist.media_sequence == 0,
            playlist.end_list,
            opt_text(playlist.playlist_type) == Some("VOD"@),
            playlist.independent_segments,
            opt_text(playlist.init_segment) == opt_str_text(init_uri),
            playlist.segments@.len() == i,
            segment_lines(playlist.segments@) == media_lines(durations@.take(i as int)),
        decreases n - i,
    {
        let mut uri = String::from_str("segment_");
        push_decimal(&mut uri, i as u64);
        uri.append(".mp4");
        let ghost before = playlist.segments@;
        playlist.add_segment(durations[i], uri);
        proof {
            assert(playlist.segments@.drop_last() =~= before);
            assert(durations@.take(i + 1).drop_last() =~= durations@.take(i as int));
            assert(uri@ =~= segment_uri(i as nat));
        }
        i = i + 1;
    }
    assert(durations@.take(n as int) =~= durations@);
    let mut out = String::new();
    playlist.write_to(&mut out);
    assert(out@ =~= playlist.text());
    out
}

/// Whether `line` is an `#EXTINF` line.
pub open spec fn is_extinf(line: Seq<char>) -> bool {
    line.len() >= 8 && line.subrange(0, 8) == "#EXTINF:"@
}

/// The `#EXTINF` lines among `lines`, in order.
pub open spec fn extinf_lines(lines: Seq<Seq<char>>) -> Seq<Seq<char>>
    decreases lines.len(),
{
    if lines.len() == 0 {
        Seq::empty()
    } else if is_extinf(lines.last()) {
        extinf_lines(lines.drop_last()).push(lines.last())
    } else {
        extinf_lines(lines.drop_last())
    }
}

/// The `#EXTINF` line of each of `durations`, in order.
pub open spec fn duration_lines(durations: Seq<u64>) -> Seq<Seq<char>> {
    Seq::new(durations.len(), |i: int| extinf_line(durations[i] as nat))
}

proof fn lemma_extinf_concat(a: Seq<Seq<char>>, b: Seq<Seq<char>>)
    ensures
        extinf_lines(a + b) == extinf_lines(a) + extinf_lines(b),
    decreases b.len(),
{
    if b.len() == 0 {
        assert(a + b =~= a);
        assert(extinf_lines(a) + extinf_lines(b) =~= extinf_lines(a));
    } else {
        lemma_extinf_concat(a, b.drop_last());
        assert((a + b).drop_last() =~= a + b.drop_last());
        assert((a + b).last() == b.last());
        assert(extinf_lines(a + b) =~= extinf_lines(a) + extinf_lines(b));
    }
}

proof fn lemma_extinf_push_other(lines: Seq<Seq<char>>, line: Seq<char>)
    requires
        !is_extinf(line),
    ensures
        extinf_lines(lines.push(line)) == extinf_lines(lines),
{
    assert(lines.push(line).drop_last() =~= lines);
}

proof fn lemma_extinf_push_entry(lines: Seq<Seq<char>>, line: Seq<char>)
    requires
        is_extinf(line),
    ensures
        extinf_lines(lines.push(line)) == extinf_lines(lines).push(line),
{
    assert(lines.push(line).drop_last() =~= lines);
}

proof fn lemma_tagged_line_is_not_extinf(tag: Seq<char>, rest: Seq<char>)
    requires
        tag.len() >= 5,
        tag[4] != 'I',
    ensures
        !is_extinf(tag + rest),
{
    reveal_strlit("#EXTINF:");
    let line = tag + rest;
    if line.len() >= 8 {
        assert(line.subrange(0, 8)[4] == tag[4]);
        assert("#EXTINF:"@[4] == 'I');
    }
}

proof fn lemma_head_has_no_extinf(
    version: nat,
    target: nat,
    sequence: nat,
    init_uri: Option<Seq<char>>,
)
    ensures
        extinf_lines(head_lines(version, target, sequence, Some("VOD"@), true, init_uri))
            == Seq::<Seq<char>>::empty(),
{
    reveal_strlit("#EXTM3U");
    reveal_strlit("#EXT-X-VERSION:");
    reveal_strlit("#EXT-X-TARGETDURATION:");
    reveal_strlit("#EXT-X-MEDIA-SEQUENCE:");
    reveal_strlit("#EXT-X-PLAYLIST-TYPE:");
    reveal_strlit("#EXT-X-INDEPENDENT-SEGMENTS");
    reveal_strlit("#EXT-X-MAP:URI=\"");
    let none = Seq::<Seq<char>>::empty();
    let l1 = none.push("#EXTM3U"@);
    let l2 = l1.push("#EXT-X-VERSION:"@ + decimal(version));
    let l3 = l2.push("#EXT-X-TARGETDURATION:"@ + decimal(target));
    let l4 = l3.push("#EXT-X-MEDIA-SEQUENCE:"@ + decimal(sequence));
    let l5 = l4.push("#EXT-X-PLAYLIST-TYPE:"@ + "VOD"@);
    let l6 = l5.push("#EXT-X-INDEPENDENT-SEGMENTS"@);
    lemma_extinf_push_other(none, "#EXTM3U"@);
    lemma_tagged_line_is_not_extinf("#EXT-X-VERSION:"@, decimal(version));
    lemma_extinf_push_other(l1, "#EXT-X-VERSION:"@ + decimal(version));
    lemma_tagged_line_is_not_extinf("#EXT-X-TARGETDURATION:"@, decimal(target));
    lemma_extinf_push_other(l2, "#EXT-X-TARGETDURATION:"@ + decimal(target));
    lemma_tagged_line_is_not_extinf("#EXT-X-MEDIA-SEQUENCE:"@, decimal(sequence));
    lemma_extinf_push_other(l3, "#EXT-X-MEDIA-SEQUENCE:"@ + decimal(sequence));
    lemma_tagged_line_is_not_extinf("#EXT-X-PLAYLIST-TYPE:"@, "VOD"@);
    lemma_extinf_push_other(l4, "#EXT-X-PLAYLIST-TYPE:"@ + "VOD"@);
    lemma_tagged_line_is_not_extinf("#EXT-X-INDEPENDENT-SEGMENTS"@, Seq::<char>::empty());
    assert("#EXT-X-INDEPENDENT-SEGMENTS"@ + Seq::<char>::empty()
        =~= "#EXT-X-INDEPENDENT-SEGMENTS"@);
    lemma_extinf_push_other(l5, "#EXT-X-INDEPENDENT-SEGMENTS"@);
    let head = head_lines(version, target, sequence, Some("VOD"@), true, init_uri);
    match init_uri {
        Some(uri) => {
            lemma_tagged_line_is_not_extinf("#EXT-X-MAP:URI=\""@, uri + "\""@);
            assert("#EXT-X-MAP:URI=\""@ + (uri + "\""@) =~= map_line(uri));
            lemma_extinf_push_other(l6, map_line(uri));
            assert(head =~= l6.push(map_line(uri)));
        },
        None => {
            assert(head =~= l6);
        },
    }
}

proof fn lemma_media_lines_extinf(durations: Seq<u64>)
    ensures
        extinf_lines(media_lines(durations)) == duration_lines(durations),
        media_lines(durations).len() == 2 * durations.len(),
    decreases durations.len(),
{
    if durations.len() == 0 {
        assert(extinf_lines(media_lines(durations)) =~= duration_lines(durations));
    } else {
        let rest = durations.drop_last();
        lemma_media_lines_extinf(rest);
        let entry = extinf_line(durations.last() as nat);
        let uri = segment_uri((durations.len() - 1) as nat);
        reveal_strlit("#EXTINF:");
        reveal_strlit("segment_");
        assert(entry.subrange(0, 8) =~= "#EXTINF:"@);
        assert(is_extinf(entry));
        assert(!is_extinf(uri)) by {
            if uri.len() >= 8 {
                assert(uri.subrange(0, 8)[0] == 's');
                assert("#EXTINF:"@[0] == '#');
            }
        }
        lemma_extinf_push_entry(media_lines(rest), entry);
        lemma_extinf_push_other(media_lines(rest).push(entry), uri);
        assert(duration_lines(rest).push(entry) =~= duration_lines(durations));
    }
}

/// Whether `line` holds no line feed.
pub open spec fn no_line_feed(line: Seq<char>) -> bool {
    forall|i: int| 0 <= i < line.len() ==> line[i] != '\n'
}

/// The position of the first line feed of `text` at or after `from`, or
/// the length of `text` where there is none.
pub open spec fn line_feed_from(text: Seq<char>, from: int) -> int
    decreases text.len() - from,
{
    if 0 <= from < text.len() && text[from] != '\n' {
        line_feed_from(text, from + 1)
    } else {
        from
    }
}

/// The lines of `text`: what stands before each line feed, and what
/// follows the last one where that is not empty.
pub open spec fn text_lines(text: Seq<char>) -> Seq<Seq<char>>
    decreases text.len(),
{
    if text.len() == 0 {
        Seq::empty()
    } else {
        let end = line_feed_from(text, 0);
        if 0 <= end < text.len() {
            seq![text.subrange(0, end)] + text_lines(text.subrange(end + 1, text.len() as int))
        } else {
            seq![text]
        }
    }
}

proof fn lemma_line_feed_after(line: Seq<char>, rest: Seq<char>, from: int)
    requires
        no_line_feed(line),
        0 <= from <= line.len(),
    ensures
        line_feed_from(line + seq!['\n'] + rest, from) == line.len(),
    decreases line.len() - from,
{
    let text = line + seq!['\n'] + rest;
    if from < line.len() {
        assert(text[from] == line[from]);
        lemma_line_feed_after(line, rest, from + 1);
    } else {
        assert(text[from] == '\n');
    }
}

proof fn lemma_text_lines_of_joined(lines: Seq<Seq<char>>)
    requires
        forall|i: int| 0 <= i < lines.len() ==> no_line_feed(#[trigger] lines[i]),
    ensures
        text_lines(join_lines(lines)) == lines,
    decreases lines.len(),
{
    if lines.len() == 0 {
        assert(text_lines(join_lines(lines)) =~= lines);
    } else {
        let first = lines[0];
        let rest = lines.drop_first();
        assert(lines =~= seq![first] + rest);
        lemma_join_concat(seq![first], rest);
        lemma_join_push(Seq::<Seq<char>>::empty(), first);
        assert(seq![first] =~= Seq::<Seq<char>>::empty().push(first));
        assert(join_lines(Seq::<Seq<char>>::empty()) =~= Seq::<char>::empty());
        let text = join_lines(lines);
        assert(text =~= first + seq!['\n'] + join_lines(rest));
        lemma_line_feed_after(first, join_lines(rest), 0);
        assert(text.subrange(0, first.len() as int) =~= first);
        assert(text.subrange((first.len() + 1) as int, text.len() as int) =~= join_lines(rest));
        assert forall|i: int| 0 <= i < rest.len() implies no_line_feed(#[trigger] rest[i]) by {
            assert(rest[i] == lines[i + 1]);
        }
        lemma_text_lines_of_joined(rest);
        assert(text_lines(text) =~= seq![first] + rest);
    }
}

proof fn lemma_decimal_has_no_line_feed(n: nat)
    ensures
        no_line_feed(decimal(n)),
    decreases n,
{
    if n >= 10 {
        lemma_decimal_has_no_line_feed(n / 10);
        assert forall|i: int| 0 <= i < decimal(n).len() implies decimal(n)[i] != '\n' by {
            if i < decimal(n / 10).len() {
                assert(decimal(n)[i] == decimal(n / 10)[i]);
            }
        }
    }
}

proof fn lemma_concat_has_no_line_feed(a: Seq<char>, b: Seq<char>)
    requires
        no_line_feed(a),
        no_line_feed(b),
    ensures
        no_line_feed(a + b),
{
    assert forall|i: int| 0 <= i < (a + b).len() implies (a + b)[i] != '\n' by {
        if i < a.len() {
            assert((a + b)[i] == a[i]);
        } else {
            assert((a + b)[i] == b[i - a.len()]);
        }
    }
}

proof fn lemma_fixed6_has_no_line_feed(micros: nat)
    ensures
        no_line_feed(fixed6(micros)),
{
    lemma_decimal_has_no_line_feed(micros / 1000000);
    assert(no_line_feed(seq!['.']));
    lemma_concat_has_no_line_feed(decimal(micros / 1000000), seq!['.']);
    assert(decimal(micros / 1000000).push('.') =~= decimal(micros / 1000000) + seq!['.']);
    lemma_concat_has_no_line_feed(
        decimal(micros / 1000000) + seq!['.'],
        six_digits(micros % 1000000),
    );
}

proof fn lemma_head_has_no_line_feed(target: nat, init_uri: Option<Seq<char>>)
    requires
        init_uri is Some ==> no_line_feed(init_uri->Some_0),
    ensures
        forall|i: int|
            0 <= i < head_lines(7, target, 0, Some("VOD"@), true, init_uri).len() ==> no_line_feed(
                #[trigger] head_lines(7, target, 0, Some("VOD"@), true, init_uri)[i],
            ),
{
    reveal_strlit("#EXTM3U");
    reveal_strlit("#EXT-X-VERSION:");
    reveal_strlit("#EXT-X-TARGETDURATION:");
    reveal_strlit("#EXT-X-MEDIA-SEQUENCE:");
    reveal_strlit("#EXT-X-PLAYLIST-TYPE:");
    reveal_strlit("VOD");
    reveal_strlit("#EXT-X-INDEPENDENT-SEGMENTS");
    reveal_strlit("#EXT-X-MAP:URI=\"");
    reveal_strlit("\"");
    lemma_decimal_has_no_line_feed(7);
    lemma_decimal_has_no_line_feed(target);
    lemma_decimal_has_no_line_feed(0);
    assert(no_line_feed("#EXTM3U"@));
    assert(no_line_feed("#EXT-X-VERSION:"@));
    assert(no_line_feed("#EXT-X-TARGETDURATION:"@));
    assert(no_line_feed("#EXT-X-MEDIA-SEQUENCE:"@));
    assert(no_line_feed("#EXT-X-PLAYLIST-TYPE:"@));
    assert(no_line_feed("VOD"@));
    assert(no_line_feed("#EXT-X-INDEPENDENT-SEGMENTS"@));
    assert(no_line_feed("#EXT-X-MAP:URI=\""@));
    assert(no_line_feed("\""@));
    lemma_concat_has_no_line_feed("#EXT-X-VERSION:"@, decimal(7));
    lemma_concat_has_no_line_feed("#EXT-X-TARGETDURATION:"@, decimal(target));
    lemma_concat_has_no_line_feed("#EXT-X-MEDIA-SEQUENCE:"@, decimal(0));
    lemma_concat_has_no_line_feed("#EXT-X-PLAYLIST-TYPE:"@, "VOD"@);
    let head = head_lines(7, target, 0, Some("VOD"@), true, init_uri);
    match init_uri {
        Some(uri) => {
            lemma_concat_has_no_line_feed("#EXT-X-MAP:URI=\""@, uri);
            lemma_concat_has_no_line_feed("#EXT-X-MAP:URI=\""@ + uri, "\""@);
            assert(head.len() == 7);
            assert(head[6] == map_line(uri));
        },
        None => {
            assert(head.len() == 6);
        },
    }
    assert(head[0] == "#EXTM3U"@);
    assert(head[1] == "#EXT-X-VERSION:"@ + decimal(7));
    assert(head[2] == "#EXT-X-TARGETDURATION:"@ + decimal(target));
    assert(head[3] == "#EXT-X-MEDIA-SEQUENCE:"@ + decimal(0));
    assert(head[4] == "#EXT-X-PLAYLIST-TYPE:"@ + "VOD"@);
    assert(head[5] == "#EXT-X-INDEPENDENT-SEGMENTS"@);
}

proof fn lemma_media_has_no_line_feed(durations: Seq<u64>)
    ensures
        forall|i: int|
            0 <= i < media_lines(durations).len() ==> no_line_feed(
                #[trigger] media_lines(durations)[i],
            ),
    decreases durations.len(),
{
    if durations.len() > 0 {
        let rest = durations.drop_last();
        lemma_media_has_no_line_feed(rest);
        reveal_strlit("#EXTINF:");
        reveal_strlit(",");
        reveal_strlit("segment_");
        reveal_strlit(".mp4");
        assert(no_line_feed("#EXTINF:"@));
        assert(no_line_feed(","@));
        assert(no_line_feed("segment_"@));
        assert(no_line_feed(".mp4"@));
        let index = (durations.len() - 1) as nat;
        lemma_fixed6_has_no_line_feed(durations.last() as nat);
        lemma_concat_has_no_line_feed("#EXTINF:"@, fixed6(durations.last() as nat));
        lemma_concat_has_no_line_feed("#EXTINF:"@ + fixed6(durations.last() as nat), ","@);
        lemma_decimal_has_no_line_feed(index);
        lemma_concat_has_no_line_feed("segment_"@, decimal(index));
        lemma_concat_has_no_line_feed("segment_"@ + decimal(index), ".mp4"@);
        let all = media_lines(durations);
        assert forall|i: int| 0 <= i < all.len() implies no_line_feed(#[trigger] all[i]) by {
            if i < media_lines(rest).len() {
                assert(all[i] == media_lines(rest)[i]);
            }
        }
    }
}

/// Read line by line, the playlist text is the playlist's lines, as long as
/// the initialization URI holds no line feed.
pub proof fn lemma_playlist_text_lines(durations: Seq<u64>, init_uri: Option<Seq<char>>)
    requires
        init_uri is Some ==> no_line_feed(init_uri->Some_0),
    ensures
        text_lines(playlist_text(durations, init_uri)) == playlist_lines(durations, init_uri),
{
    let head = head_lines(7, target_duration(durations), 0, Some("VOD"@), true, init_uri);
    let media = media_lines(durations);
    let tail = tail_lines(true);
    lemma_head_has_no_line_feed(target_duration(durations), init_uri);
    lemma_media_has_no_line_feed(durations);
    reveal_strlit("#EXT-X-ENDLIST");
    assert(no_line_feed("#EXT-X-ENDLIST"@));
    let lines = playlist_lines(durations, init_uri);
    assert forall|i: int| 0 <= i < lines.len() implies no_line_feed(#[trigger] lines[i]) by {
        if i < head.len() {
            assert(lines[i] == head[i]);
        } else if i < head.len() + media.len() {
            assert(lines[i] == media[i - head.len()]);
        } else {
            assert(lines[i] == tail[i - head.len() - media.len()]);
        }
    }
    lemma_text_lines_of_joined(lines);
}

/// The playlist lists every segment once and in order: its `#EXTINF` lines
/// are as many as the durations, and the one at each index carries the
/// duration at that index with six decimals. Where the initialization URI
/// holds no line feed, the same holds of the text read line by line.
pub proof fn lemma_playlist_lists_each_duration(durations: Seq<u64>, init_uri: Option<Seq<char>>)
    ensures
        extinf_lines(playlist_lines(durations, init_uri)) == duration_lines(durations),
        (init_uri is Some ==> no_line_feed(init_uri->Some_0)) ==> extinf_lines(
            text_lines(playlist_text(durations, init_uri)),
        ) == duration_lines(durations),
        extinf_lines(playlist_lines(durations, init_uri)).len() == durations.len(),
        forall|i: int|
            0 <= i < durations.len() ==> extinf_lines(playlist_lines(durations, init_uri))[i]
                == "#EXTINF:"@ + fixed6(durations[i] as nat) + ","@,
{
    let head = head_lines(7, target_duration(durations), 0, Some("VOD"@), true, init_uri);
    let media = media_lines(durations);
    let tail = tail_lines(true);
    lemma_head_has_no_extinf(7, target_duration(durations), 0, init_uri);
    lemma_media_lines_extinf(durations);
    reveal_strlit("#EXT-X-ENDLIST");
    lemma_tagged_line_is_not_extinf("#EXT-X-ENDLIST"@, Seq::<char>::empty());
    assert("#EXT-X-ENDLIST"@ + Seq::<char>::empty() =~= "#EXT-X-ENDLIST"@);
    lemma_extinf_push_other(Seq::<Seq<char>>::empty(), "#EXT-X-ENDLIST"@);
    assert(tail =~= Seq::<Seq<char>>::empty().push("#EXT-X-ENDLIST"@));
    lemma_extinf_concat(head, media);
    lemma_extinf_concat(head + media, tail);
    assert(extinf_lines(playlist_lines(durations, init_uri)) =~= duration_lines(durations));
    if init_uri is Some ==> no_line_feed(init_uri->Some_0) {
        lemma_playlist_text_lines(durations, init_uri);
    }
}

/// The playlist text depends on the durations and the initialization URI
/// alone: equal inputs give equal text.
pub proof fn lemma_playlist_is_a_function_of_its_inputs(
    durations_a: Seq<u64>,
    init_a: Option<Seq<char>>,
    durations_b: Seq<u64>,
    init_b: Option<Seq<char>>,
)
    requires
        durations_a =~= durations_b,
        init_a == init_b,
    ensures
        playlist_text(durations_a, init_a) == playlist_text(durations_b, init_b),
{
}

} // verus!
