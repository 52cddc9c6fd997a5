//! Decoding of the compressed telemetry channels of a recorded track:
//! bit unpacking, per-segment reconstruction and assembly into points.

pub mod document;
pub mod error;
pub mod segment;
pub mod track;
pub mod twelvebit;
pub mod unpack;

pub use document::{decode_document, decode_track, RawTrack, TrackPlan};
pub use error::{DecodeError, Param};
pub use segment::{decode_channel, decode_segment, diff_deltas, RawSegment, SegmentPlan};
pub use track::{assemble, track_order, Channels, Field, LengthMismatch, Point};
pub use twelvebit::TwelveBits;
pub use unpack::{sign_extend, unpack};
