//! Segment lifecycle and playlist state of an HTTP Live Streaming sink.
//!
//! A continuous stream is cut into segments. Each segment is written to a
//! numbered file; the most recent segments are listed in a playlist; and the
//! files of segments that have aged out are deleted. This library holds the
//! part that decides: it names the files, keeps the playlist and its sliding
//! window, renders the playlist, and says which files to delete. Opening,
//! writing and deleting files is left to the caller.
//!
//! * [`naming`]: from a location template and a segment number to a path.
//! * [`pads`]: which request pads are handed out.
//! * [`playlist`]: the playlist, its window and its text.
//! * [`retention`]: the queue of files on disk and what leaves it.
//! * [`seconds`]: durations, kept in nanoseconds and written in seconds.
//! * [`settings`]: the configuration.
//! * [`sink`]: the lifecycle, from start over opened and closed segments to
//!   stop.
//! * [`text`]: comparing strings.
//! * [`window`]: what a sliding window keeps of a list and what it drops.

pub mod naming;
pub mod pads;
pub mod playlist;
pub mod retention;
pub mod seconds;
pub mod settings;
pub mod sink;
pub mod text;
pub mod window;
