//! The request pads of the sink: one for audio and one for video, each handed
//! out at most once at a time.

use crate::text::same_text;
use vstd::prelude::*;
use vstd::string::*;

verus! {

/// The two kinds of pad.
#[derive(Copy, Clone, PartialEq, Eq, Structural, Debug)]
pub enum PadKind {
    Audio,
    Video,
}

/// The kind of pad that a pad template of the given name stands for, if any.
pub open spec fn pad_kind_named(name: Seq<char>) -> Option<PadKind> {
    if name == "audio"@ {
        Some(PadKind::Audio)
    } else if name == "video"@ {
        Some(PadKind::Video)
    } else {
        None
    }
}

/// The kind of pad that a pad template of the given name stands for, if any.
pub fn pad_kind(name: &str) -> (kind: Option<PadKind>)
    ensures
        kind == pad_kind_named(name@),
{
    if same_text(name, "audio") {
        Some(PadKind::Audio)
    } else if same_text(name, "video") {
        Some(PadKind::Video)
    } else {
        None
    }
}

impl PadKind {
    /// The name of the sink's pad of this kind, as characters.
    pub open spec fn name_text(self) -> Seq<char> {
        match self {
            PadKind::Audio => "audio"@,
            PadKind::Video => "video"@,
        }
    }

    /// The name of the pad that the splitting element is asked for, as
    /// characters.
    pub open spec fn peer_name_text(self) -> Seq<char> {
        match self {
            PadKind::Audio => "audio_0"@,
            PadKind::Video => "video"@,
        }
    }

    /// The name of the sink's pad of this kind.
    pub fn name(self) -> (name: &'static str)
        ensures
            name@ == self.name_text(),
    {
        match self {
            PadKind::Audio => "audio",
            PadKind::Video => "video",
        }
    }

    /// The name of the pad that the splitting element is asked for.
    pub fn peer_name(self) -> (name: &'static str)
        ensures
            name@ == self.peer_name_text(),
    {
        match self {
            PadKind::Audio => "audio_0",
            PadKind::Video => "video",
        }
    }
}

/// Which pads are handed out.
#[derive(Copy, Clone, PartialEq, Eq, Structural, Debug)]
pub struct Pads {
    pub video_sink: bool,
    pub audio_sink: bool,
}

impl Pads {
    /// No pad is handed out.
    pub fn new() -> (pads: Pads)
        ensures
            !pads.video_sink,
            !pads.audio_sink,
    {
        Pads { video_sink: false, audio_sink: false }
    }

    /// Whether the pad of the given kind is handed out.
    pub open spec fn holds(self, kind: PadKind) -> bool {
        match kind {
            PadKind::Audio => self.audio_sink,
            PadKind::Video => self.video_sink,
        }
    }

    /// The pad to hand out for a request with the given template name: the
    /// pad of the kind that the name stands for, unless it is handed out
    /// already. A request without a name, or with another name, gets none.
    pub fn requestable(&self, template_name: Option<&str>) -> (kind: Option<PadKind>)
        ensures
            kind == match template_name {
                Some(name) => match pad_kind_named(name@) {
                    Some(k) => if self.holds(k) {
                        None
                    } else {
                        Some(k)
                    },
                    None => None,
                },
                None => None::<PadKind>,
            },
    {
        match template_name {
            None => None,
            Some(name) => match pad_kind(name) {
                None => None,
                Some(PadKind::Audio) => if self.audio_sink {
                    None
                } else {
                    Some(PadKind::Audio)
                },
                Some(PadKind::Video) => if self.video_sink {
                    None
                } else {
                    Some(PadKind::Video)
                },
            },
        }
    }

    /// Records that the pad of the given kind was handed out.
    pub fn requested(&mut self, kind: PadKind)
        ensures
            final(self).holds(kind),
            kind == PadKind::Audio ==> final(self).video_sink == old(self).video_sink,
            kind == PadKind::Video ==> final(self).audio_sink == old(self).audio_sink,
    {
        match kind {
            PadKind::Audio => {
                self.audio_sink = true;
            },
            PadKind::Video => {
                self.video_sink = true;
            },
        }
    }

    /// Whether any pad is handed out, so that one can come back.
    pub fn any(&self) -> (any: bool)
        ensures
            any == (self.audio_sink || self.video_sink),
    {
        self.audio_sink || self.video_sink
    }

    /// Records that the pad of the given name came back: the audio pad if
    /// that is its name, else the video pad.
    pub fn released(&mut self, pad_name: &str)
        ensures
            pad_name@ == "audio"@ ==> !final(self).audio_sink && final(self).video_sink == old(self).video_sink,
            pad_name@ != "audio"@ ==> !final(self).video_sink && final(self).audio_sink == old(self).audio_sink,
    {
        if same_text(pad_name, "audio") {
            self.audio_sink = false;
        } else {
            self.video_sink = false;
        }
    }
}

} // verus!
