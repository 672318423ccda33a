//! The sink's lifecycle: started or stopped, and while started the segment
//! that is open, the playlist of the closed ones and the files on disk.
//!
//! Times are running times of the pipeline in nanoseconds. They are only ever
//! compared with each other.

use crate::naming::{segment_name, segment_path};
use crate::playlist::{
    lemma_uris_of_kept, playlist_text, uris, EntryView, MediaPlaylist, PlaylistEntry,
    PlaylistRenderState, PlaylistView, PLAYLIST_VERSION,
};
use crate::retention::retain;
use crate::settings::Settings;
use crate::text::same_text;
use crate::window::{
    dropped, excess, is_suffix, kept, lemma_kept_is_suffix, lemma_suffix_of_suffix,
    lemma_suffix_push, lemma_suffixes_of_one_list, texts,
};
use vstd::prelude::*;
use vstd::string::*;
use vstd::utf8::encode_utf8;

verus! {

/// Why the sink refuses an event.
#[derive(Copy, Clone, PartialEq, Eq, Structural, Debug)]
pub enum SinkError {
    /// The sink is stopped.
    NotStarted,
    /// A segment was closed, but no segment is open or the time at which it
    /// was opened is not known.
    MissingOpenTimestamp,
    /// A segment was closed at a time before the time at which it was opened.
    NegativeDuration,
}

/// What each error says, as characters.
pub open spec fn error_text(error: SinkError) -> Seq<char> {
    match error {
        SinkError::NotStarted => "Not in Started state"@,
        SinkError::MissingOpenTimestamp => "No open segment with a known opening time"@,
        SinkError::NegativeDuration => "Segment closed before it was opened"@,
    }
}

impl SinkError {
    /// What the error says.
    pub fn message(&self) -> (text: String)
        ensures
            text@ == error_text(*self),
    {
        match self {
            SinkError::NotStarted => String::from_str("Not in Started state"),
            SinkError::MissingOpenTimestamp => String::from_str(
                "No open segment with a known opening time",
            ),
            SinkError::NegativeDuration => String::from_str("Segment closed before it was opened"),
        }
    }
}

/// What the element that splits the stream tells about a segment.
#[derive(Copy, Clone, PartialEq, Eq, Structural, Debug)]
pub enum FragmentEvent {
    /// The first data of a segment was written.
    Opened,
    /// The last data of a segment was written.
    Closed,
}

/// The event that a message of the given name reports, if any.
pub open spec fn event_named(name: Seq<char>) -> Option<FragmentEvent> {
    if name == "splitmuxsink-fragment-opened"@ {
        Some(FragmentEvent::Opened)
    } else if name == "splitmuxsink-fragment-closed"@ {
        Some(FragmentEvent::Closed)
    } else {
        None
    }
}

/// The event that a message of the given name reports, if any.
pub fn fragment_event(name: &str) -> (event: Option<FragmentEvent>)
    ensures
        event == event_named(name@),
{
    if same_text(name, "splitmuxsink-fragment-opened") {
        Some(FragmentEvent::Opened)
    } else if same_text(name, "splitmuxsink-fragment-closed") {
        Some(FragmentEvent::Closed)
    } else {
        None
    }
}

/// The segment that is being written.
#[derive(Debug)]
pub struct OpenSegment {
    pub sequence: u64,
    pub path: String,
    /// When the segment was opened, once that is known.
    pub opened_at: Option<u64>,
}

/// The mathematical value of an open segment.
pub struct OpenSegmentView {
    pub sequence: nat,
    pub path: Seq<char>,
    pub opened_at: Option<u64>,
}

impl View for OpenSegment {
    type V = OpenSegmentView;

    open spec fn view(&self) -> OpenSegmentView {
        OpenSegmentView { sequence: self.sequence as nat, path: self.path@, opened_at: self.opened_at }
    }
}

/// What a started sink holds.
#[derive(Debug)]
pub struct Session {
    playlist: MediaPlaylist,
    playlist_render_state: PlaylistRenderState,
    next_sequence: u64,
    current_segment: Option<OpenSegment>,
    old_segment_locations: Vec<String>,
}

/// The mathematical value of a started sink.
pub struct SessionView {
    pub playlist: PlaylistView,
    /// Whether a playlist has been rendered yet.
    pub playlist_render_state: PlaylistRenderState,
    /// The number that the next segment gets.
    pub next_sequence: nat,
    /// The segment that is open, if any.
    pub current_segment: Option<OpenSegmentView>,
    /// The paths of the segment files on disk, oldest first.
    pub old_segment_locations: Seq<Seq<char>>,
}

impl View for Session {
    type V = SessionView;

    closed spec fn view(&self) -> SessionView {
        SessionView {
            playlist: self.playlist@,
            playlist_render_state: self.playlist_render_state,
            next_sequence: self.next_sequence as nat,
            current_segment: match self.current_segment {
                Some(segment) => Some(segment@),
                None => None,
            },
            old_segment_locations: texts(self.old_segment_locations@),
        }
    }
}

/// The sink's lifecycle state.
#[derive(Debug)]
pub enum State {
    Stopped,
    Started(Session),
}

impl Default for State {
    /// A sink begins stopped.
    fn default() -> (state: State)
        ensures
            state@ == StateView::Stopped,
    {
        State::Stopped
    }
}

/// The mathematical value of the lifecycle state.
pub enum StateView {
    Stopped,
    Started(SessionView),
}

impl View for State {
    type V = StateView;

    open spec fn view(&self) -> StateView {
        match self {
            State::Stopped => StateView::Stopped,
            State::Started(session) => StateView::Started(session@),
        }
    }
}

/// What the caller has to do after a segment was closed: write the playlist
/// and delete files.
#[derive(Debug)]
pub struct PlaylistUpdate {
    /// The bytes of the playlist to write.
    pub playlist: Vec<u8>,
    /// The paths that left the playlist, oldest first.
    pub evicted: Vec<String>,
    /// The paths of the files to delete, oldest first.
    pub to_delete: Vec<String>,
}

/// The mathematical value of a playlist update.
pub struct UpdateView {
    pub playlist: Seq<u8>,
    pub evicted: Seq<Seq<char>>,
    pub to_delete: Seq<Seq<char>>,
}

impl View for PlaylistUpdate {
    type V = UpdateView;

    open spec fn view(&self) -> UpdateView {
        UpdateView {
            playlist: self.playlist@,
            evicted: texts(self.evicted@),
            to_delete: texts(self.to_delete@),
        }
    }
}

/// One if a segment is open, else zero.
pub open spec fn open_count(session: SessionView) -> nat {
    if session.current_segment is Some {
        1
    } else {
        0
    }
}

/// The bound below which the numbers of the listed segments lie: the open
/// segment's number, or without one the number that the next segment gets.
pub open spec fn sequence_bound(session: SessionView) -> nat {
    match session.current_segment {
        Some(segment) => segment.sequence,
        None => session.next_sequence,
    }
}

/// Whether the playlist and the disk hold the same segments as far as both
/// reach back: the paths that the playlist lists are the newest of the files
/// on disk, or the files on disk are the newest of the paths listed.
pub open spec fn retention_aligned(session: SessionView) -> bool {
    let listed = uris(session.playlist.segments);
    is_suffix(listed, session.old_segment_locations) || is_suffix(
        session.old_segment_locations,
        listed,
    )
}

/// What holds of every started sink: the segments that the playlist lists,
/// those that left it and the one that is open have all been numbered; the
/// numbers fit a signed 64-bit integer; the playlist lists its segments by
/// rising number, each opened before the one that is open now; and the
/// playlist and the disk hold the same segments as far as both reach back.
pub open spec fn session_wf(session: SessionView) -> bool {
    &&& retention_aligned(session)
    &&& 0 <= session.playlist.media_sequence
    &&& session.playlist.media_sequence + session.playlist.segments.len() + open_count(session)
        <= session.next_sequence
    &&& session.next_sequence <= i64::MAX
    &&& sequence_bound(session) <= session.next_sequence
    &&& session.current_segment is Some ==> session.current_segment->0.sequence
        < session.next_sequence
    &&& forall|i: int|
        0 <= i < session.playlist.segments.len() ==> (#[trigger] session.playlist.segments[i]).sequence
            < sequence_bound(session)
    &&& forall|i: int, j: int|
        0 <= i < j < session.playlist.segments.len() ==> (
        #[trigger] session.playlist.segments[i]).sequence
            < (#[trigger] session.playlist.segments[j]).sequence
}

/// What holds in addition while every segment is closed before the next one
/// is opened: no number is left out. The media sequence number is then the
/// number of segments opened so far less the entries listed, less one while
/// a segment is open, and the entries carry the numbers from the media
/// sequence number on.
pub open spec fn in_step(session: SessionView) -> bool {
    &&& session.playlist.media_sequence + session.playlist.segments.len() + open_count(session)
        == session.next_sequence
    &&& session.current_segment is Some ==> session.current_segment->0.sequence + 1
        == session.next_sequence
    &&& forall|i: int|
        0 <= i < session.playlist.segments.len() ==> (#[trigger] session.playlist.segments[i]).sequence
            == session.playlist.media_sequence + i
}

/// What holds of every sink.
pub open spec fn state_wf(state: StateView) -> bool {
    match state {
        StateView::Stopped => true,
        StateView::Started(session) => session_wf(session),
    }
}

/// A started sink that has seen no segment yet.
pub open spec fn fresh_session(target_duration: nat) -> SessionView {
    SessionView {
        playlist: PlaylistView {
            version: PLAYLIST_VERSION as nat,
            target_duration,
            media_sequence: 0,
            segments: Seq::<EntryView>::empty(),
            end_list: false,
        },
        playlist_render_state: PlaylistRenderState::Init,
        next_sequence: 0,
        current_segment: None,
        old_segment_locations: Seq::<Seq<char>>::empty(),
    }
}

/// The state after `start`: a stopped sink starts afresh, a started one
/// stays as it is.
pub open spec fn started(state: StateView, target_duration: nat) -> StateView {
    match state {
        StateView::Stopped => StateView::Started(fresh_session(target_duration)),
        StateView::Started(session) => state,
    }
}

/// The session after a segment is opened: the segment gets the next number
/// and the path that the template gives for it.
pub open spec fn opened(session: SessionView, template: Seq<char>, opened_at: Option<u64>)
    -> SessionView {
    SessionView {
        current_segment: Some(
            OpenSegmentView {
                sequence: session.next_sequence,
                path: segment_path(template, session.next_sequence),
                opened_at,
            },
        ),
        next_sequence: session.next_sequence + 1,
        ..session
    }
}

/// The session after the pipeline has told when the open segment was opened.
/// Without an open segment nothing changes.
pub open spec fn timestamped(session: SessionView, timestamp: u64) -> SessionView {
    match session.current_segment {
        Some(segment) => SessionView {
            current_segment: Some(OpenSegmentView { opened_at: Some(timestamp), ..segment }),
            ..session
        },
        None => session,
    }
}

/// The session after the file of the segment just opened could not be
/// opened: no segment is open, and its number is not given out again. The
/// playlist and the files on disk are as they were.
pub open spec fn given_up(session: SessionView) -> SessionView {
    SessionView { current_segment: None, ..session }
}

/// Why the open segment cannot be closed at `closed_at`, if it cannot.
pub open spec fn session_close_error(session: SessionView, closed_at: u64) -> Option<SinkError> {
    match session.current_segment {
        None => Some(SinkError::MissingOpenTimestamp),
        Some(segment) => match segment.opened_at {
            None => Some(SinkError::MissingOpenTimestamp),
            Some(opened_at) => if closed_at < opened_at {
                Some(SinkError::NegativeDuration)
            } else {
                None
            },
        },
    }
}

/// Why a segment cannot be closed at `closed_at`, if it cannot.
pub open spec fn close_error(state: StateView, closed_at: u64) -> Option<SinkError> {
    match state {
        StateView::Stopped => Some(SinkError::NotStarted),
        StateView::Started(session) => session_close_error(session, closed_at),
    }
}

/// The playlist entry of the open segment when it is closed at `closed_at`:
/// its duration is the time it was open, to the nanosecond.
pub open spec fn closing_entry(session: SessionView, closed_at: u64) -> EntryView
    recommends
        session_close_error(session, closed_at) is None,
{
    let segment = session.current_segment->0;
    EntryView {
        sequence: segment.sequence,
        uri: segment.path,
        duration: (closed_at - segment.opened_at->0) as nat,
    }
}

/// The session after the open segment is closed at `closed_at`: its entry
/// stands last in the playlist, the playlist is cut to its newest
/// `playlist_length` entries, the media sequence number is the number of
/// segments opened so far less the entries listed, the segment's file is the
/// newest on disk, and the files on disk are cut to the newest `max_files`.
pub open spec fn closed(
    session: SessionView,
    closed_at: u64,
    playlist_length: nat,
    max_files: nat,
) -> SessionView
    recommends
        session_close_error(session, closed_at) is None,
{
    let entry = closing_entry(session, closed_at);
    let segments = kept(session.playlist.segments.push(entry), playlist_length);
    SessionView {
        playlist: PlaylistView {
            segments,
            media_sequence: session.next_sequence - segments.len(),
            ..session.playlist
        },
        playlist_render_state: PlaylistRenderState::Started,
        next_sequence: session.next_sequence,
        current_segment: None,
        old_segment_locations: kept(session.old_segment_locations.push(entry.uri), max_files),
    }
}

/// What the caller is handed when the open segment is closed at `closed_at`:
/// the bytes of the new playlist, the paths that left the playlist and the
/// files that left the disk window.
pub open spec fn close_update(
    session: SessionView,
    closed_at: u64,
    playlist_length: nat,
    max_files: nat,
) -> UpdateView
    recommends
        session_close_error(session, closed_at) is None,
{
    let entry = closing_entry(session, closed_at);
    UpdateView {
        playlist: encode_utf8(
            playlist_text(closed(session, closed_at, playlist_length, max_files).playlist),
        ),
        evicted: uris(dropped(session.playlist.segments.push(entry), playlist_length)),
        to_delete: dropped(session.old_segment_locations.push(entry.uri), max_files),
    }
}

/// Whether stopping writes a last playlist: only a started sink that has
/// rendered a playlist before does.
pub open spec fn stop_writes(state: StateView) -> bool {
    match state {
        StateView::Stopped => false,
        StateView::Started(session) => session.playlist_render_state
            == PlaylistRenderState::Started,
    }
}

/// The session with its playlist marked as ended.
pub open spec fn ended(session: SessionView) -> SessionView {
    SessionView { playlist: PlaylistView { end_list: true, ..session.playlist }, ..session }
}

/// The session as the last playlist shows it: ended, and with the open
/// segment closed at `running_time` where it can be closed.
pub open spec fn final_session(
    session: SessionView,
    running_time: u64,
    playlist_length: nat,
    max_files: nat,
) -> SessionView {
    if session_close_error(session, running_time) is None {
        closed(ended(session), running_time, playlist_length, max_files)
    } else {
        ended(session)
    }
}

/// What the caller is handed when a sink that writes a last playlist stops.
pub open spec fn final_update(
    session: SessionView,
    running_time: u64,
    playlist_length: nat,
    max_files: nat,
) -> UpdateView {
    if session_close_error(session, running_time) is None {
        close_update(ended(session), running_time, playlist_length, max_files)
    } else {
        UpdateView {
            playlist: encode_utf8(playlist_text(ended(session).playlist)),
            evicted: Seq::<Seq<char>>::empty(),
            to_delete: Seq::<Seq<char>>::empty(),
        }
    }
}

impl Session {
    /// Every session is well formed.
    #[verifier::type_invariant]
    closed spec fn well_formed(&self) -> bool {
        session_wf(self@)
    }

    /// A session that has seen no segment yet.
    fn new(target_duration: u32) -> (session: Session)
        ensures
            session@ == fresh_session(target_duration as nat),
    {
        let playlist = MediaPlaylist::new(target_duration);
        let old_segment_locations: Vec<String> = Vec::new();
        proof {
            lemma_fresh_session_invariant(target_duration as nat);
            assert(texts(old_segment_locations@) =~= Seq::<Seq<char>>::empty());
        }
        Session {
            playlist,
            playlist_render_state: PlaylistRenderState::Init,
            next_sequence: 0,
            current_segment: None,
            old_segment_locations,
        }
    }

    /// Opens the next segment and returns its path.
    fn open(self, template: &str, opened_at: Option<u64>) -> (r: (Session, String))
        requires
            self@.next_sequence < i64::MAX,
        ensures
            r.0@ == opened(self@, template@, opened_at),
            r.1@ == segment_path(template@, self@.next_sequence),
    {
        proof {
            use_type_invariant(&self);
        }
        let sequence: u64 = self.next_sequence;
        let path = segment_name(template, sequence);
        let session = Session {
            playlist: self.playlist,
            playlist_render_state: self.playlist_render_state,
            next_sequence: sequence + 1,
            current_segment: Some(OpenSegment { sequence, path: path.clone(), opened_at }),
            old_segment_locations: self.old_segment_locations,
        };
        (session, path)
    }

    /// Records when the open segment was opened.
    fn timestamp(self, timestamp: u64) -> (session: Session)
        ensures
            session@ == timestamped(self@, timestamp),
    {
        proof {
            use_type_invariant(&self);
        }
        match self.current_segment {
            Some(segment) => Session {
                playlist: self.playlist,
                playlist_render_state: self.playlist_render_state,
                next_sequence: self.next_sequence,
                current_segment: Some(
                    OpenSegment {
                        sequence: segment.sequence,
                        path: segment.path,
                        opened_at: Some(timestamp),
                    },
                ),
                old_segment_locations: self.old_segment_locations,
            },
            None => self,
        }
    }

    /// Gives up the open segment.
    fn give_up(self) -> (session: Session)
        ensures
            session@ == given_up(self@),
    {
        proof {
            use_type_invariant(&self);
            lemma_give_up_keeps_invariant(self@);
        }
        Session {
            playlist: self.playlist,
            playlist_render_state: self.playlist_render_state,
            next_sequence: self.next_sequence,
            current_segment: None,
            old_segment_locations: self.old_segment_locations,
        }
    }

    /// The open segment's duration in nanoseconds when it is closed at
    /// `closed_at`, or why it cannot be closed then.
    fn closing_duration(&self, closed_at: u64) -> (r: Result<u64, SinkError>)
        ensures
            match r {
                Ok(duration) => session_close_error(self@, closed_at) is None && duration
                    == closing_entry(self@, closed_at).duration,
                Err(e) => session_close_error(self@, closed_at) == Some(e),
            },
    {
        match &self.current_segment {
            None => Err(SinkError::MissingOpenTimestamp),
            Some(segment) => match segment.opened_at {
                None => Err(SinkError::MissingOpenTimestamp),
                Some(opened_at) => if closed_at < opened_at {
                    Err(SinkError::NegativeDuration)
                } else {
                    Ok(closed_at - opened_at)
                },
            },
        }
    }

    /// The session with its playlist marked as ended.
    fn end(self) -> (session: Session)
        ensures
            session@ == ended(self@),
    {
        proof {
            use_type_invariant(&self);
        }
        let mut playlist = self.playlist;
        playlist.mark_ended();
        Session {
            playlist,
            playlist_render_state: self.playlist_render_state,
            next_sequence: self.next_sequence,
            current_segment: self.current_segment,
            old_segment_locations: self.old_segment_locations,
        }
    }

    /// Closes the open segment at `closed_at`. A session whose segment
    /// cannot be closed comes back as it was.
    fn close(self, closed_at: u64, playlist_length: usize, max_files: usize) -> (r: (
        Session,
        Result<PlaylistUpdate, SinkError>,
    ))
        ensures
            match r.1 {
                Ok(update) => {
                    &&& session_close_error(self@, closed_at) is None
                    &&& r.0@ == closed(self@, closed_at, playlist_length as nat, max_files as nat)
                    &&& update@ == close_update(
                        self@,
                        closed_at,
                        playlist_length as nat,
                        max_files as nat,
                    )
                },
                Err(e) => session_close_error(self@, closed_at) == Some(e) && r.0 == self,
            },
    {
        proof {
            use_type_invariant(&self);
        }
        let duration = match self.closing_duration(closed_at) {
            Ok(duration) => duration,
            Err(e) => {
                return (self, Err(e));
            },
        };
        proof {
            lemma_close_keeps_invariant(
                self@,
                closed_at,
                playlist_length as nat,
                max_files as nat,
            );
        }
        let segment = self.current_segment.unwrap();
        let mut playlist = self.playlist;
        let mut old_segment_locations = self.old_segment_locations;
        let path = segment.path.clone();
        playlist.append(PlaylistEntry { sequence: segment.sequence, uri: segment.path, duration });
        let evicted = playlist.trim(playlist_length);
        playlist.recompute_media_sequence(self.next_sequence);
        let to_delete = retain(&mut old_segment_locations, path, max_files);
        let bytes = playlist.serialize();
        let session = Session {
            playlist,
            playlist_render_state: PlaylistRenderState::Started,
            next_sequence: self.next_sequence,
            current_segment: None,
            old_segment_locations,
        };
        (session, Ok(PlaylistUpdate { playlist: bytes, evicted, to_delete }))
    }
}

impl Session {
    /// The playlist of the closed segments.
    pub fn playlist(&self) -> (playlist: &MediaPlaylist)
        ensures
            playlist@ == self@.playlist,
    {
        &self.playlist
    }

    /// Whether a playlist has been rendered yet.
    pub fn playlist_render_state(&self) -> (state: PlaylistRenderState)
        ensures
            state == self@.playlist_render_state,
    {
        self.playlist_render_state
    }

    /// The number that the next segment gets.
    pub fn next_sequence(&self) -> (next: u64)
        ensures
            next == self@.next_sequence,
    {
        self.next_sequence
    }

    /// The segment that is open, if any.
    pub fn current_segment(&self) -> (segment: Option<&OpenSegment>)
        ensures
            match segment {
                Some(s) => self@.current_segment == Some(s@),
                None => self@.current_segment is None,
            },
    {
        self.current_segment.as_ref()
    }

    /// The paths of the segment files on disk, oldest first.
    pub fn old_segment_locations(&self) -> (paths: &Vec<String>)
        ensures
            texts(paths@) == self@.old_segment_locations,
    {
        &self.old_segment_locations
    }
}

/// What stopping hands to the caller: the last playlist where one is written,
/// else nothing.
pub open spec fn stop_update(
    state: StateView,
    running_time: u64,
    playlist_length: nat,
    max_files: nat,
) -> Option<UpdateView> {
    match state {
        StateView::Stopped => None,
        StateView::Started(session) => if stop_writes(state) {
            Some(final_update(session, running_time, playlist_length, max_files))
        } else {
            None
        },
    }
}

/// The sink: its configuration and its lifecycle state.
#[derive(Debug)]
pub struct FlexHlsSink {
    pub settings: Settings,
    pub state: State,
}

impl Default for FlexHlsSink {
    /// A stopped sink with the default configuration.
    fn default() -> (sink: FlexHlsSink)
        ensures
            sink.lifecycle() == StateView::Stopped,
            sink.settings.location@ == crate::settings::default_location(),
            sink.settings.playlist_location@ == crate::settings::default_playlist_location(),
            sink.settings.playlist_root is None,
            sink.settings.playlist_length == crate::settings::DEFAULT_PLAYLIST_LENGTH,
            sink.settings.max_num_segment_files == crate::settings::DEFAULT_MAX_NUM_SEGMENT_FILES,
            sink.settings.target_duration == crate::settings::DEFAULT_TARGET_DURATION,
            sink.settings.send_keyframe_requests
                == crate::settings::DEFAULT_SEND_KEYFRAME_REQUESTS,
    {
        FlexHlsSink::new()
    }
}

impl FlexHlsSink {
    /// The mathematical value of the lifecycle state.
    pub open spec fn lifecycle(&self) -> StateView {
        self.state@
    }

    /// The playlist length of the configuration.
    pub open spec fn playlist_length(&self) -> nat {
        self.settings.playlist_length as nat
    }

    /// The number of files kept on disk, of the configuration.
    pub open spec fn max_files(&self) -> nat {
        self.settings.max_num_segment_files as nat
    }

    /// A stopped sink with the default configuration.
    pub fn new() -> (sink: FlexHlsSink)
        ensures
            sink.lifecycle() == StateView::Stopped,
            sink.settings.location@ == crate::settings::default_location(),
            sink.settings.playlist_location@ == crate::settings::default_playlist_location(),
            sink.settings.playlist_root is None,
            sink.settings.playlist_length == crate::settings::DEFAULT_PLAYLIST_LENGTH,
            sink.settings.max_num_segment_files == crate::settings::DEFAULT_MAX_NUM_SEGMENT_FILES,
            sink.settings.target_duration == crate::settings::DEFAULT_TARGET_DURATION,
            sink.settings.send_keyframe_requests
                == crate::settings::DEFAULT_SEND_KEYFRAME_REQUESTS,
    {
        FlexHlsSink { settings: Settings::default(), state: State::default() }
    }

    /// The lifecycle state, which is well formed whatever was done to the
    /// sink.
    pub fn state(&self) -> (state: &State)
        ensures
            state@ == self.lifecycle(),
            state_wf(self.lifecycle()),
    {
        match &self.state {
            State::Stopped => {},
            State::Started(session) => {
                proof {
                    use_type_invariant(session);
                }
            },
        }
        &self.state
    }

    /// Whether the sink is started.
    pub fn is_started(&self) -> (started: bool)
        ensures
            started == (self.lifecycle() is Started),
    {
        match &self.state {
            State::Stopped => false,
            State::Started(_) => true,
        }
    }

    /// Takes the state out and leaves the sink stopped.
    fn take_state(&mut self) -> (state: State)
        ensures
            state == old(self).state,
            final(self).settings == old(self).settings,
            final(self).state == State::Stopped,
    {
        let mut state = State::Stopped;
        core::mem::swap(&mut self.state, &mut state);
        state
    }

    /// Starts a stopped sink with an empty playlist whose target duration is
    /// the configured one; the first segment will get number zero. A started
    /// sink stays as it is.
    pub fn start(&mut self)
        ensures
            state_wf(final(self).lifecycle()),
            final(self).settings == old(self).settings,
            final(self).lifecycle() == started(
                old(self).lifecycle(),
                old(self).settings.target_duration as nat,
            ),
    {
        match self.state() {
            State::Stopped => {
                proof {
                    lemma_fresh_session_invariant(self.settings.target_duration as nat);
                }
                self.state = State::Started(Session::new(self.settings.target_duration));
            },
            State::Started(_) => {},
        }
    }

    /// Opens the next segment: it gets the next number and the path that the
    /// configured location template gives for that number, and the path is
    /// returned. `opened_at` is the time at which the segment was opened,
    /// where the caller knows it already. A segment that was still open is
    /// given up. A stopped sink refuses and stays as it is.
    pub fn open_segment(&mut self, opened_at: Option<u64>) -> (r: Result<String, SinkError>)
        requires
            old(self).lifecycle() is Started ==> old(self).lifecycle()->Started_0.next_sequence
                < i64::MAX,
        ensures
            state_wf(final(self).lifecycle()),
            final(self).settings == old(self).settings,
            match old(self).lifecycle() {
                StateView::Stopped => r == Err::<String, SinkError>(SinkError::NotStarted)
                    && final(self).lifecycle() == StateView::Stopped,
                StateView::Started(session) => {
                    &&& r is Ok
                    &&& r->Ok_0@ == segment_path(
                        old(self).settings.location@,
                        session.next_sequence,
                    )
                    &&& final(self).lifecycle() == StateView::Started(
                        opened(session, old(self).settings.location@, opened_at),
                    )
                },
            },
    {
        match self.take_state() {
            State::Stopped => Err(SinkError::NotStarted),
            State::Started(session) => {
                let (session, path) = session.open(self.settings.location.as_str(), opened_at);
                proof {
                    use_type_invariant(&session);
                }
                self.state = State::Started(session);
                Ok(path)
            },
        }
    }

    /// Takes note that the file of the segment just opened could not be
    /// opened: the segment is given up, so that no segment is open and a
    /// later close finds nothing to list. The playlist, the files on disk and
    /// the number that the next segment gets stay as they are. A stopped sink
    /// refuses and stays as it is.
    pub fn open_failed(&mut self) -> (r: Result<(), SinkError>)
        ensures
            state_wf(final(self).lifecycle()),
            final(self).settings == old(self).settings,
            match old(self).lifecycle() {
                StateView::Stopped => r == Err::<(), SinkError>(SinkError::NotStarted)
                    && final(self).lifecycle() == StateView::Stopped,
                StateView::Started(session) => r is Ok && final(self).lifecycle()
                    == StateView::Started(given_up(session)),
            },
    {
        match self.take_state() {
            State::Stopped => Err(SinkError::NotStarted),
            State::Started(session) => {
                let session = session.give_up();
                proof {
                    use_type_invariant(&session);
                }
                self.state = State::Started(session);
                Ok(())
            },
        }
    }

    /// Records the time at which the open segment was opened, as the pipeline
    /// tells it. A started sink without an open segment stays as it is; a
    /// stopped sink refuses and stays as it is.
    pub fn fragment_opened(&mut self, timestamp: u64) -> (r: Result<(), SinkError>)
        ensures
            state_wf(final(self).lifecycle()),
            final(self).settings == old(self).settings,
            match old(self).lifecycle() {
                StateView::Stopped => r == Err::<(), SinkError>(SinkError::NotStarted)
                    && final(self).lifecycle() == StateView::Stopped,
                StateView::Started(session) => r is Ok && final(self).lifecycle()
                    == StateView::Started(timestamped(session, timestamp)),
            },
    {
        match self.take_state() {
            State::Stopped => Err(SinkError::NotStarted),
            State::Started(session) => {
                let session = session.timestamp(timestamp);
                proof {
                    use_type_invariant(&session);
                }
                self.state = State::Started(session);
                Ok(())
            },
        }
    }

    /// Closes the open segment at `closed_at`: its entry is appended to the
    /// playlist, the playlist and the files on disk are cut to the configured
    /// windows, and the caller is handed the new playlist and the files to
    /// delete. It fails, and changes nothing, when the sink is stopped, when
    /// no segment is open or its opening time is unknown, and when
    /// `closed_at` lies before the opening time.
    pub fn close_segment(&mut self, closed_at: u64) -> (r: Result<PlaylistUpdate, SinkError>)
        ensures
            state_wf(final(self).lifecycle()),
            final(self).settings == old(self).settings,
            match r {
                Ok(update) => {
                    &&& close_error(old(self).lifecycle(), closed_at) is None
                    &&& final(self).lifecycle() == StateView::Started(
                        closed(
                            old(self).lifecycle()->Started_0,
                            closed_at,
                            old(self).playlist_length(),
                            old(self).max_files(),
                        ),
                    )
                    &&& update@ == close_update(
                        old(self).lifecycle()->Started_0,
                        closed_at,
                        old(self).playlist_length(),
                        old(self).max_files(),
                    )
                },
                Err(e) => close_error(old(self).lifecycle(), closed_at) == Some(e)
                    && final(self).lifecycle() == old(self).lifecycle(),
            },
    {
        let playlist_length: usize = self.settings.playlist_length as usize;
        let max_files: usize = self.settings.max_num_segment_files;
        match self.take_state() {
            State::Stopped => Err(SinkError::NotStarted),
            State::Started(session) => {
                let (session, r) = session.close(closed_at, playlist_length, max_files);
                proof {
                    use_type_invariant(&session);
                }
                self.state = State::Started(session);
                r
            },
        }
    }

    /// Takes a message of the element that splits the stream, by its name and
    /// the running time it carries. A message that a segment was opened
    /// records the opening time; one that a segment was closed closes the
    /// open segment and hands out the playlist update; any other message is
    /// passed over.
    pub fn handle_message(&mut self, name: &str, running_time: u64) -> (r: Result<
        Option<PlaylistUpdate>,
        SinkError,
    >)
        ensures
            state_wf(final(self).lifecycle()),
            final(self).settings == old(self).settings,
            match event_named(name@) {
                None => r is Ok && r->Ok_0 is None && final(self).lifecycle() == old(self).lifecycle(),
                Some(FragmentEvent::Opened) => match old(self).lifecycle() {
                    StateView::Stopped => r == Err::<Option<PlaylistUpdate>, SinkError>(
                        SinkError::NotStarted,
                    ) && final(self).lifecycle() == StateView::Stopped,
                    StateView::Started(session) => r is Ok && r->Ok_0 is None && final(self).lifecycle() == StateView::Started(timestamped(session, running_time)),
                },
                Some(FragmentEvent::Closed) => match close_error(
                    old(self).lifecycle(),
                    running_time,
                ) {
                    Some(e) => r == Err::<Option<PlaylistUpdate>, SinkError>(e) && final(self).lifecycle() == old(self).lifecycle(),
                    None => {
                        &&& r is Ok
                        &&& r->Ok_0 is Some
                        &&& r->Ok_0->0@ == close_update(
                            old(self).lifecycle()->Started_0,
                            running_time,
                            old(self).playlist_length(),
                            old(self).max_files(),
                        )
                        &&& final(self).lifecycle() == StateView::Started(
                            closed(
                                old(self).lifecycle()->Started_0,
                                running_time,
                                old(self).playlist_length(),
                                old(self).max_files(),
                            ),
                        )
                    },
                },
            },
    {
        match fragment_event(name) {
            None => {
                let _ = self.state();
                Ok(None)
            },
            Some(FragmentEvent::Opened) => match self.fragment_opened(running_time) {
                Ok(()) => Ok(None),
                Err(e) => Err(e),
            },
            Some(FragmentEvent::Closed) => match self.close_segment(running_time) {
                Ok(update) => Ok(Some(update)),
                Err(e) => Err(e),
            },
        }
    }

    /// Stops the sink. A started sink that has rendered a playlist before
    /// marks its playlist as ended, closes the open segment at `running_time`
    /// where it can be closed, and hands the caller the last playlist, which
    /// is to be written in any case. Any other sink hands out nothing. The
    /// sink is stopped afterwards, whatever it was.
    pub fn stop(&mut self, running_time: u64) -> (update: Option<PlaylistUpdate>)
        ensures
            final(self).settings == old(self).settings,
            final(self).lifecycle() == StateView::Stopped,
            match update {
                Some(u) => Some(u@),
                None => None,
            } == stop_update(
                old(self).lifecycle(),
                running_time,
                old(self).playlist_length(),
                old(self).max_files(),
            ),
    {
        let playlist_length: usize = self.settings.playlist_length as usize;
        let max_files: usize = self.settings.max_num_segment_files;
        match self.take_state() {
            State::Stopped => None,
            State::Started(session) => {
                if session.playlist_render_state == PlaylistRenderState::Started {
                    let (session, r) = session.end().close(
                        running_time,
                        playlist_length,
                        max_files,
                    );
                    match r {
                        Ok(update) => Some(update),
                        Err(_) => {
                            let update = PlaylistUpdate {
                                playlist: session.playlist.serialize(),
                                evicted: Vec::new(),
                                to_delete: Vec::new(),
                            };
                            assert(update@.evicted =~= Seq::<Seq<char>>::empty());
                            assert(update@.to_delete =~= Seq::<Seq<char>>::empty());
                            Some(update)
                        },
                    }
                } else {
                    None
                }
            },
        }
    }
}

/// A sink that was just started is well formed and has left out no number.
pub proof fn lemma_fresh_session_invariant(target_duration: nat)
    ensures
        session_wf(fresh_session(target_duration)),
        in_step(fresh_session(target_duration)),
        fresh_session(target_duration).playlist.segments.len() == 0,
{
    let fresh = fresh_session(target_duration);
    assert(uris(fresh.playlist.segments) =~= Seq::<Seq<char>>::empty());
    assert(fresh.old_segment_locations.subrange(0, 0) =~= Seq::<Seq<char>>::empty());
}

/// Opening a segment keeps the sink well formed and leaves the playlist as
/// it is.
pub proof fn lemma_open_keeps_invariant(
    session: SessionView,
    template: Seq<char>,
    opened_at: Option<u64>,
)
    requires
        session_wf(session),
        session.next_sequence < i64::MAX,
    ensures
        session_wf(opened(session, template, opened_at)),
        opened(session, template, opened_at).playlist == session.playlist,
        opened(session, template, opened_at).old_segment_locations
            == session.old_segment_locations,
        in_step(session) && session.current_segment is None ==> in_step(
            opened(session, template, opened_at),
        ),
{
}

/// Giving up the open segment keeps the sink well formed and leaves the
/// playlist, the files on disk and the next number as they are; afterwards
/// no segment can be closed.
pub proof fn lemma_give_up_keeps_invariant(session: SessionView)
    requires
        session_wf(session),
    ensures
        session_wf(given_up(session)),
        given_up(session).playlist == session.playlist,
        given_up(session).old_segment_locations == session.old_segment_locations,
        given_up(session).next_sequence == session.next_sequence,
        forall|closed_at: u64| #[trigger]
            session_close_error(given_up(session), closed_at) == Some(
                SinkError::MissingOpenTimestamp,
            ),
{
}

/// Learning when the open segment was opened keeps the sink well formed and
/// leaves the playlist as it is.
pub proof fn lemma_timestamp_keeps_invariant(session: SessionView, timestamp: u64)
    requires
        session_wf(session),
    ensures
        session_wf(timestamped(session, timestamp)),
        timestamped(session, timestamp).playlist == session.playlist,
        timestamped(session, timestamp).old_segment_locations == session.old_segment_locations,
        in_step(session) ==> in_step(timestamped(session, timestamp)),
{
}

/// After a segment is closed the playlist lists at most `playlist_length`
/// entries (where that is not zero), its media sequence number is the number
/// of segments opened so far less the entries listed, that number has not
/// gone down, no more than `max_files` files are on disk (where that is not
/// zero), and the sink is well formed.
pub proof fn lemma_close_keeps_invariant(
    session: SessionView,
    closed_at: u64,
    playlist_length: nat,
    max_files: nat,
)
    requires
        session_wf(session),
        session_close_error(session, closed_at) is None,
    ensures
        ({
            let after = closed(session, closed_at, playlist_length, max_files);
            &&& session_wf(after)
            &&& playlist_length > 0 ==> after.playlist.segments.len() <= playlist_length
            &&& after.playlist.media_sequence == after.next_sequence
                - after.playlist.segments.len()
            &&& after.playlist.media_sequence >= session.playlist.media_sequence
            &&& max_files > 0 ==> after.old_segment_locations.len() <= max_files
            &&& after.next_sequence == session.next_sequence
            &&& in_step(session) ==> in_step(after)
        }),
{
    let entry = closing_entry(session, closed_at);
    let all = session.playlist.segments.push(entry);
    let after = closed(session, closed_at, playlist_length, max_files);
    let cut = excess(all.len(), playlist_length) as int;
    assert forall|i: int| 0 <= i < after.playlist.segments.len() implies (
    #[trigger] after.playlist.segments[i]).sequence < sequence_bound(after) by {
        assert(after.playlist.segments[i] == all[i + cut]);
    }
    assert forall|i: int, j: int| 0 <= i < j < after.playlist.segments.len() implies (
    #[trigger] after.playlist.segments[i]).sequence < (
    #[trigger] after.playlist.segments[j]).sequence by {
        assert(after.playlist.segments[i] == all[i + cut]);
        assert(after.playlist.segments[j] == all[j + cut]);
    }
    if in_step(session) {
        assert forall|i: int| 0 <= i < after.playlist.segments.len() implies (
        #[trigger] after.playlist.segments[i]).sequence == after.playlist.media_sequence + i by {
            assert(after.playlist.segments[i] == all[i + cut]);
        }
    }
    let listed = uris(session.playlist.segments).push(entry.uri);
    let on_disk = session.old_segment_locations.push(entry.uri);
    assert(uris(all) =~= listed);
    lemma_uris_of_kept(all, playlist_length);
    lemma_kept_is_suffix(listed, playlist_length);
    lemma_kept_is_suffix(on_disk, max_files);
    let listed_after = uris(after.playlist.segments);
    let on_disk_after = after.old_segment_locations;
    if is_suffix(uris(session.playlist.segments), session.old_segment_locations) {
        lemma_suffix_push(
            uris(session.playlist.segments),
            session.old_segment_locations,
            entry.uri,
        );
        lemma_suffix_of_suffix(listed_after, listed, on_disk);
        if listed_after.len() <= on_disk_after.len() {
            lemma_suffixes_of_one_list(listed_after, on_disk_after, on_disk);
        } else {
            lemma_suffixes_of_one_list(on_disk_after, listed_after, on_disk);
        }
    } else {
        lemma_suffix_push(
            session.old_segment_locations,
            uris(session.playlist.segments),
            entry.uri,
        );
        lemma_suffix_of_suffix(on_disk_after, on_disk, listed);
        if listed_after.len() <= on_disk_after.len() {
            lemma_suffixes_of_one_list(listed_after, on_disk_after, listed);
        } else {
            lemma_suffixes_of_one_list(on_disk_after, listed_after, listed);
        }
    }
}

/// Where as many files are on disk as the playlist lists, or more, the file
/// of every listed segment is on disk: the listed paths are the newest of
/// the files on disk, in the same order.
pub proof fn lemma_listed_files_are_on_disk(session: SessionView)
    requires
        session_wf(session),
        session.playlist.segments.len() <= session.old_segment_locations.len(),
    ensures
        is_suffix(uris(session.playlist.segments), session.old_segment_locations),
        forall|i: int|
            0 <= i < session.playlist.segments.len() ==> (
            #[trigger] session.playlist.segments[i]).uri
                == session.old_segment_locations[session.old_segment_locations.len()
                - session.playlist.segments.len() + i],
{
    let listed = uris(session.playlist.segments);
    let on_disk = session.old_segment_locations;
    if !is_suffix(listed, on_disk) {
        assert(on_disk.len() == listed.len());
        assert(listed.subrange(0, listed.len() as int) =~= listed);
        assert(on_disk.subrange(0, on_disk.len() as int) =~= on_disk);
    }
    let from = on_disk.len() - listed.len();
    assert forall|i: int| 0 <= i < session.playlist.segments.len() implies (
    #[trigger] session.playlist.segments[i]).uri == on_disk[from + i] by {
        assert(on_disk.subrange(from, on_disk.len() as int)[i] == listed[i]);
    }
}

/// While no number is left out, the media sequence number is the number of
/// the oldest segment that the playlist lists.
pub proof fn lemma_media_sequence_is_oldest(session: SessionView)
    requires
        in_step(session),
        session.playlist.segments.len() > 0,
    ensures
        session.playlist.segments[0].sequence == session.playlist.media_sequence,
        session.playlist.segments.last().sequence + 1 + open_count(session)
            == session.next_sequence,
{
}

/// The playlist length has no part in which files stay on disk and which are
/// deleted: that goes by `max_files` alone.
pub proof fn lemma_retention_ignores_playlist_length(
    session: SessionView,
    closed_at: u64,
    playlist_length: nat,
    other_length: nat,
    max_files: nat,
)
    ensures
        closed(session, closed_at, playlist_length, max_files).old_segment_locations == closed(
            session,
            closed_at,
            other_length,
            max_files,
        ).old_segment_locations,
        close_update(session, closed_at, playlist_length, max_files).to_delete == close_update(
            session,
            closed_at,
            other_length,
            max_files,
        ).to_delete,
{
}

/// Closing a segment at a time before it was opened is refused as a negative
/// duration, for every started sink whose open segment has an opening time.
pub proof fn lemma_close_before_open_is_negative(session: SessionView, closed_at: u64)
    requires
        session.current_segment is Some,
        session.current_segment->0.opened_at is Some,
        closed_at < session.current_segment->0.opened_at->0,
    ensures
        close_error(StateView::Started(session), closed_at) == Some(SinkError::NegativeDuration),
{
}

/// The last playlist is marked as ended, and it is the playlist of the
/// session as it stood when the sink stopped, with the open segment closed
/// where it could be closed.
pub proof fn lemma_last_playlist_is_ended(
    session: SessionView,
    running_time: u64,
    playlist_length: nat,
    max_files: nat,
)
    ensures
        final_session(session, running_time, playlist_length, max_files).playlist.end_list,
        final_update(session, running_time, playlist_length, max_files).playlist == encode_utf8(
            playlist_text(
                final_session(session, running_time, playlist_length, max_files).playlist,
            ),
        ),
{
}

/// Stopping a stopped sink hands out nothing: after one stop, a second one
/// has no further effect.
pub proof fn lemma_stop_twice(running_time: u64, playlist_length: nat, max_files: nat)
    ensures
        !stop_writes(StateView::Stopped),
        stop_update(StateView::Stopped, running_time, playlist_length, max_files) is None,
{
}

} // verus!
