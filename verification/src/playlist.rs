//! The media playlist: the ordered list of the segments that are advertised,
//! its header values, and the sliding window that bounds it.

use crate::naming::{decimal, decimal_string};
use crate::seconds::{seconds_string, seconds_text};
use crate::window::{dropped, excess, kept, texts};
use vstd::prelude::*;
use vstd::string::*;
use vstd::utf8::encode_utf8;

verus! {

/// Whether a playlist has been rendered since the sink was started.
#[derive(Copy, Clone, PartialEq, Eq, Structural, Debug)]
pub enum PlaylistRenderState {
    Init,
    Started,
}

/// The playlist version that the sink writes.
pub const PLAYLIST_VERSION: usize = 3;

/// One closed segment, as the playlist lists it.
#[derive(Debug)]
pub struct PlaylistEntry {
    /// The number the segment was given when it was opened.
    pub sequence: u64,
    /// The path of the segment's file.
    pub uri: String,
    /// How long the segment lasts, in nanoseconds.
    pub duration: u64,
}

/// The mathematical value of a playlist entry.
pub struct EntryView {
    pub sequence: nat,
    pub uri: Seq<char>,
    /// How long the segment lasts, in nanoseconds.
    pub duration: nat,
}

impl View for PlaylistEntry {
    type V = EntryView;

    open spec fn view(&self) -> EntryView {
        EntryView {
            sequence: self.sequence as nat,
            uri: self.uri@,
            duration: self.duration as nat,
        }
    }
}

/// The playlist: header values and the entries in the order they were closed.
#[derive(Debug)]
pub struct MediaPlaylist {
    pub version: usize,
    /// The advertised nominal duration of a segment, in seconds.
    pub target_duration: u32,
    /// The number of the oldest segment that the playlist still lists.
    pub media_sequence: i64,
    pub segments: Vec<PlaylistEntry>,
    /// Set once the stream has ended.
    pub end_list: bool,
}

/// The mathematical value of a playlist.
pub struct PlaylistView {
    pub version: nat,
    pub target_duration: nat,
    pub media_sequence: int,
    pub segments: Seq<EntryView>,
    pub end_list: bool,
}

/// The values of a sequence of entries, in the same order.
pub open spec fn entry_views(entries: Seq<PlaylistEntry>) -> Seq<EntryView> {
    Seq::new(entries.len(), |i: int| entries[i]@)
}

/// The paths of a sequence of entries, in the same order.
pub open spec fn uris(entries: Seq<EntryView>) -> Seq<Seq<char>> {
    Seq::new(entries.len(), |i: int| entries[i].uri)
}

/// The paths of what a window keeps are what the window keeps of the paths.
pub proof fn lemma_uris_of_kept(entries: Seq<EntryView>, window: nat)
    ensures
        uris(kept(entries, window)) == kept(uris(entries), window),
        uris(dropped(entries, window)) == dropped(uris(entries), window),
{
    assert(uris(kept(entries, window)) =~= kept(uris(entries), window));
    assert(uris(dropped(entries, window)) =~= dropped(uris(entries), window));
}

impl View for MediaPlaylist {
    type V = PlaylistView;

    open spec fn view(&self) -> PlaylistView {
        PlaylistView {
            version: self.version as nat,
            target_duration: self.target_duration as nat,
            media_sequence: self.media_sequence as int,
            segments: entry_views(self.segments@),
            end_list: self.end_list,
        }
    }
}

/// A signed number in decimal: a minus sign before the digits of a negative
/// one.
pub open spec fn signed_decimal(i: int) -> Seq<char> {
    if i < 0 {
        "-"@ + decimal((-i) as nat)
    } else {
        decimal(i as nat)
    }
}

/// The two lines of one entry: its duration in seconds, with its fraction,
/// then its path.
pub open spec fn entry_text(entry: EntryView) -> Seq<char> {
    "#EXTINF:"@ + seconds_text(entry.duration) + ",\n"@ + entry.uri + "\n"@
}

/// The lines of the entries, oldest first.
pub open spec fn entries_text(entries: Seq<EntryView>) -> Seq<char>
    decreases entries.len(),
{
    if entries.len() == 0 {
        Seq::<char>::empty()
    } else {
        entries_text(entries.drop_last()) + entry_text(entries.last())
    }
}

/// The line of the media sequence number, which is left out when the number
/// is zero.
pub open spec fn media_sequence_text(media_sequence: int) -> Seq<char> {
    if media_sequence != 0 {
        "#EXT-X-MEDIA-SEQUENCE:"@ + signed_decimal(media_sequence) + "\n"@
    } else {
        Seq::<char>::empty()
    }
}

/// The end marker's line, present once the stream has ended.
pub open spec fn end_list_text(end_list: bool) -> Seq<char> {
    if end_list {
        "#EXT-X-ENDLIST\n"@
    } else {
        Seq::<char>::empty()
    }
}

/// The header lines: format tag, version, target duration, media sequence
/// number, end marker and playlist type.
pub open spec fn header_text(playlist: PlaylistView) -> Seq<char> {
    "#EXTM3U\n"@ + "#EXT-X-VERSION:"@ + decimal(playlist.version) + "\n"@
        + "#EXT-X-TARGETDURATION:"@ + decimal(playlist.target_duration) + "\n"@
        + media_sequence_text(playlist.media_sequence) + end_list_text(playlist.end_list)
        + "#EXT-X-PLAYLIST-TYPE:VOD\n"@
}

/// The whole playlist as text: the header, then every entry, oldest first.
pub open spec fn playlist_text(playlist: PlaylistView) -> Seq<char> {
    header_text(playlist) + entries_text(playlist.segments)
}

/// Entries are rendered one after the other, in their order: the text of
/// two lists joined is the text of the first followed by the text of the
/// second.
pub proof fn lemma_entries_text_joined(first: Seq<EntryView>, second: Seq<EntryView>)
    ensures
        entries_text(first + second) == entries_text(first) + entries_text(second),
    decreases second.len(),
{
    if second.len() == 0 {
        assert(first + second =~= first);
        assert(entries_text(first) + entries_text(second) =~= entries_text(first));
    } else {
        lemma_entries_text_joined(first, second.drop_last());
        assert((first + second).drop_last() =~= first + second.drop_last());
        assert((first + second).last() == second.last());
        assert(entries_text(first + second) =~= entries_text(first) + entries_text(second));
    }
}

/// An entry appended to a playlist adds its two lines at the end of the text
/// and changes nothing before them; the text of a playlist without entries
/// is its header.
pub proof fn lemma_appended_entry_text(playlist: PlaylistView, entry: EntryView)
    ensures
        playlist_text(PlaylistView { segments: playlist.segments.push(entry), ..playlist })
            == playlist_text(playlist) + entry_text(entry),
        playlist.segments.len() == 0 ==> playlist_text(playlist) == header_text(playlist),
{
    let after = PlaylistView { segments: playlist.segments.push(entry), ..playlist };
    assert(after.segments.drop_last() =~= playlist.segments);
    assert(header_text(after) == header_text(playlist));
    assert(playlist_text(after) =~= playlist_text(playlist) + entry_text(entry));
    if playlist.segments.len() == 0 {
        assert(playlist_text(playlist) =~= header_text(playlist));
    }
}

/// Writes a signed number in decimal.
pub fn signed_decimal_string(i: i64) -> (s: String)
    ensures
        s@ == signed_decimal(i as int),
{
    if i < 0 {
        let magnitude: u64 = if i == i64::MIN {
            9223372036854775808u64
        } else {
            (-i) as u64
        };
        let mut s = String::from_str("-");
        s.append(decimal_string(magnitude).as_str());
        s
    } else {
        decimal_string(i as u64)
    }
}

impl PlaylistEntry {
    /// Writes the entry's two lines behind `out`.
    pub fn render_into(&self, out: &mut String)
        ensures
            final(out)@ == old(out)@ + entry_text(self@),
    {
        out.append("#EXTINF:");
        out.append(seconds_string(self.duration).as_str());
        out.append(",\n");
        out.append(self.uri.as_str());
        out.append("\n");
        assert(out@ =~= old(out)@ + entry_text(self@));
    }
}

impl MediaPlaylist {
    /// An empty playlist that is not ended and starts at segment zero.
    pub fn new(target_duration: u32) -> (playlist: MediaPlaylist)
        ensures
            playlist@ == (PlaylistView {
                version: PLAYLIST_VERSION as nat,
                target_duration: target_duration as nat,
                media_sequence: 0,
                segments: Seq::<EntryView>::empty(),
                end_list: false,
            }),
    {
        let playlist = MediaPlaylist {
            version: PLAYLIST_VERSION,
            target_duration,
            media_sequence: 0,
            segments: Vec::new(),
            end_list: false,
        };
        assert(entry_views(playlist.segments@) =~= Seq::<EntryView>::empty());
        playlist
    }

    /// The number of entries.
    pub fn entry_count(&self) -> (count: usize)
        ensures
            count == self@.segments.len(),
    {
        self.segments.len()
    }

    /// Adds an entry behind the newest one.
    pub fn append(&mut self, entry: PlaylistEntry)
        ensures
            final(self)@ == (PlaylistView {
                segments: old(self)@.segments.push(entry@),
                ..old(self)@
            }),
    {
        self.segments.push(entry);
        assert(entry_views(self.segments@) =~= entry_views(old(self).segments@).push(entry@));
    }

    /// Removes the oldest entries until at most `window` are left, and
    /// returns the paths of those removed, oldest first. A window of zero is
    /// unbounded and removes nothing.
    pub fn trim(&mut self, window: usize) -> (evicted: Vec<String>)
        ensures
            final(self)@ == (PlaylistView {
                segments: kept(old(self)@.segments, window as nat),
                ..old(self)@
            }),
            texts(evicted@) == uris(dropped(old(self)@.segments, window as nat)),
    {
        let ghost before = self.segments@;
        let mut evicted: Vec<String> = Vec::new();
        if window > 0 {
            while self.segments.len() > window
                invariant
                    window > 0,
                    self.version == old(self).version,
                    self.target_duration == old(self).target_duration,
                    self.media_sequence == old(self).media_sequence,
                    self.end_list == old(self).end_list,
                    evicted@.len() + self.segments@.len() == before.len(),
                    evicted@.len() <= excess(before.len(), window as nat),
                    self.segments@ == before.subrange(evicted@.len() as int, before.len() as int),
                    texts(evicted@) == uris(
                        entry_views(before).subrange(0, evicted@.len() as int),
                    ),
                decreases self.segments@.len(),
            {
                let ghost done = evicted@;
                let oldest = self.segments.remove(0);
                evicted.push(oldest.uri);
                assert(self.segments@ =~= before.subrange(
                    evicted@.len() as int,
                    before.len() as int,
                ));
                assert(texts(evicted@) =~= uris(
                    entry_views(before).subrange(0, evicted@.len() as int),
                )) by {
                    assert(texts(evicted@) =~= texts(done).push(oldest.uri@));
                    assert(oldest == before[done.len() as int]);
                }
            }
        }
        proof {
            let views = entry_views(before);
            assert(evicted@.len() == excess(views.len(), window as nat));
            assert(entry_views(self.segments@) =~= kept(views, window as nat));
            assert(texts(evicted@) =~= uris(dropped(views, window as nat)));
        }
        evicted
    }

    /// Sets the media sequence number to the number that the next segment
    /// will get less the number of entries: where every segment so far was
    /// listed in turn, that is the number of the oldest entry left.
    pub fn recompute_media_sequence(&mut self, next_sequence: u64)
        requires
            i64::MIN <= next_sequence - old(self)@.segments.len() <= i64::MAX,
        ensures
            final(self)@ == (PlaylistView {
                media_sequence: next_sequence - old(self)@.segments.len(),
                ..old(self)@
            }),
    {
        let next: i128 = next_sequence as i128;
        let count: i128 = self.segments.len() as i128;
        self.media_sequence = (next - count) as i64;
    }

    /// Writes the header lines.
    fn render_header(&self) -> (out: String)
        ensures
            out@ == header_text(self@),
    {
        let mut out = String::from_str("#EXTM3U\n");
        out.append("#EXT-X-VERSION:");
        out.append(decimal_string(self.version as u64).as_str());
        out.append("\n");
        out.append("#EXT-X-TARGETDURATION:");
        out.append(decimal_string(self.target_duration as u64).as_str());
        out.append("\n");
        if self.media_sequence != 0 {
            let ghost before = out@;
            out.append("#EXT-X-MEDIA-SEQUENCE:");
            out.append(signed_decimal_string(self.media_sequence).as_str());
            out.append("\n");
            assert(out@ =~= before + media_sequence_text(self@.media_sequence));
        } else {
            assert(out@ =~= out@ + media_sequence_text(self@.media_sequence));
        }
        if self.end_list {
            out.append("#EXT-X-ENDLIST\n");
        } else {
            assert(out@ =~= out@ + end_list_text(self@.end_list));
        }
        out.append("#EXT-X-PLAYLIST-TYPE:VOD\n");
        out
    }

    /// Renders the playlist as text: the header, then every entry in the
    /// order in which the segments were closed.
    ///
    /// Every number is written exactly. A writer that holds durations as
    /// 32-bit floating point numbers and the media sequence number in 32
    /// bits, as the `m3u8-rs` crate does, gives the same text as long as the
    /// numbers fit those: a media sequence number within 32 bits, a target
    /// duration of no more than 16,777,216 seconds, and durations that are
    /// whole seconds up to 16,777,216 or have no more than six significant
    /// digits in seconds. Beyond that such a writer rounds, and the text here
    /// keeps every digit: 16,777,217 seconds are written `16777217`.
    pub fn render(&self) -> (text: String)
        ensures
            text@ == playlist_text(self@),
    {
        let mut out = self.render_header();
        let ghost views = entry_views(self.segments@);
        let mut i: usize = 0;
        assert(entries_text(views.subrange(0, 0)) =~= Seq::<char>::empty());
        assert(out@ =~= out@ + Seq::<char>::empty());
        while i < self.segments.len()
            invariant
                i <= self.segments@.len(),
                views == entry_views(self.segments@),
                out@ == header_text(self@) + entries_text(views.subrange(0, i as int)),
            decreases self.segments@.len() - i,
        {
            let ghost before = out@;
            self.segments[i].render_into(&mut out);
            proof {
                let next = views.subrange(0, i + 1);
                assert(next.drop_last() =~= views.subrange(0, i as int));
                assert(next.last() == self.segments@[i as int]@);
                assert(out@ =~= header_text(self@) + entries_text(next));
            }
            i = i + 1;
        }
        assert(views.subrange(0, i as int) =~= views);
        out
    }

    /// Renders the playlist as the bytes of its text.
    pub fn serialize(&self) -> (bytes: Vec<u8>)
        ensures
            bytes@ == encode_utf8(playlist_text(self@)),
    {
        let text = self.render();
        text.as_str().as_bytes_vec()
    }

    /// Marks the stream as ended. Marking an ended playlist changes nothing.
    pub fn mark_ended(&mut self)
        ensures
            final(self)@ == (PlaylistView { end_list: true, ..old(self)@ }),
    {
        self.end_list = true;
    }
}

} // verus!
