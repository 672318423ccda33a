//! The sink's configuration: where segments and the playlist go, how many
//! segments the playlist lists and how many files stay on disk.

use vstd::prelude::*;
use vstd::string::*;

verus! {

pub const DEFAULT_MAX_NUM_SEGMENT_FILES: u32 = 10;

pub const DEFAULT_TARGET_DURATION: u32 = 15;

pub const DEFAULT_PLAYLIST_LENGTH: u32 = 5;

pub const DEFAULT_SEND_KEYFRAME_REQUESTS: bool = true;

pub const NANOSECONDS_PER_SECOND: u64 = 1_000_000_000;

/// The default template of segment locations, as characters.
pub open spec fn default_location() -> Seq<char> {
    "segment%05d.ts"@
}

/// The default location of the playlist, as characters.
pub open spec fn default_playlist_location() -> Seq<char> {
    "playlist.m3u8"@
}

/// The configuration of a sink.
#[derive(Debug)]
pub struct Settings {
    /// The template of segment locations; `%05d` stands for the segment's
    /// number.
    pub location: String,
    /// Where the playlist is written.
    pub playlist_location: String,
    pub playlist_root: Option<String>,
    /// How many segments the playlist lists at most; zero is unbounded.
    pub playlist_length: u32,
    /// How many segment files stay on disk at most; zero is unbounded.
    pub max_num_segment_files: usize,
    /// The nominal duration of a segment, in seconds.
    pub target_duration: u32,
    pub send_keyframe_requests: bool,
}

impl Default for Settings {
    /// The default configuration.
    fn default() -> (settings: Settings)
        ensures
            settings.location@ == default_location(),
            settings.playlist_location@ == default_playlist_location(),
            settings.playlist_root is None,
            settings.playlist_length == DEFAULT_PLAYLIST_LENGTH,
            settings.max_num_segment_files == DEFAULT_MAX_NUM_SEGMENT_FILES,
            settings.target_duration == DEFAULT_TARGET_DURATION,
            settings.send_keyframe_requests == DEFAULT_SEND_KEYFRAME_REQUESTS,
    {
        Settings {
            location: String::from_str("segment%05d.ts"),
            playlist_location: String::from_str("playlist.m3u8"),
            playlist_root: None,
            playlist_length: DEFAULT_PLAYLIST_LENGTH,
            max_num_segment_files: DEFAULT_MAX_NUM_SEGMENT_FILES as usize,
            target_duration: DEFAULT_TARGET_DURATION,
            send_keyframe_requests: DEFAULT_SEND_KEYFRAME_REQUESTS,
        }
    }
}

impl Settings {
    /// Sets the template of segment locations; without a value it goes back
    /// to the default.
    pub fn set_location(&mut self, location: Option<String>)
        ensures
            final(self).location@ == (match location {
                Some(l) => l@,
                None => default_location(),
            }),
            final(self).playlist_location == old(self).playlist_location,
            final(self).playlist_root == old(self).playlist_root,
            final(self).playlist_length == old(self).playlist_length,
            final(self).max_num_segment_files == old(self).max_num_segment_files,
            final(self).target_duration == old(self).target_duration,
            final(self).send_keyframe_requests == old(self).send_keyframe_requests,
    {
        self.location = match location {
            Some(l) => l,
            None => String::from_str("segment%05d.ts"),
        };
    }

    /// Sets the location of the playlist; without a value it becomes the
    /// default template of segment locations.
    pub fn set_playlist_location(&mut self, playlist_location: Option<String>)
        ensures
            final(self).playlist_location@ == (match playlist_location {
                Some(l) => l@,
                None => default_location(),
            }),
            final(self).location == old(self).location,
            final(self).playlist_root == old(self).playlist_root,
            final(self).playlist_length == old(self).playlist_length,
            final(self).max_num_segment_files == old(self).max_num_segment_files,
            final(self).target_duration == old(self).target_duration,
            final(self).send_keyframe_requests == old(self).send_keyframe_requests,
    {
        self.playlist_location = match playlist_location {
            Some(l) => l,
            None => String::from_str("segment%05d.ts"),
        };
    }

    /// Sets the number of segment files kept on disk.
    pub fn set_max_files(&mut self, max_files: u32)
        ensures
            final(self).max_num_segment_files == max_files,
            final(self).location == old(self).location,
            final(self).playlist_location == old(self).playlist_location,
            final(self).playlist_root == old(self).playlist_root,
            final(self).playlist_length == old(self).playlist_length,
            final(self).target_duration == old(self).target_duration,
            final(self).send_keyframe_requests == old(self).send_keyframe_requests,
    {
        self.max_num_segment_files = max_files as usize;
    }

    /// The number of segment files kept on disk, cut to 32 bits.
    pub fn max_files(&self) -> (max_files: u32)
        ensures
            max_files == self.max_num_segment_files as u32,
            self.max_num_segment_files <= u32::MAX ==> max_files == self.max_num_segment_files,
    {
        #[verifier::truncate]
        (self.max_num_segment_files as u32)
    }

    /// The longest time a segment may take before the next one is begun, in
    /// nanoseconds: the target duration.
    pub fn max_size_time(&self) -> (nanoseconds: u64)
        ensures
            nanoseconds == self.target_duration * NANOSECONDS_PER_SECOND,
    {
        assert(self.target_duration * NANOSECONDS_PER_SECOND <= u64::MAX) by (nonlinear_arith)
            requires
                self.target_duration <= 0xffff_ffff,
                NANOSECONDS_PER_SECOND == 1_000_000_000,
        ;
        (self.target_duration as u64) * NANOSECONDS_PER_SECOND
    }
}

} // verus!
