//! A crate for muxing one or more video/audio streams into a WebM file.
//!
//! This crate is only for muxing media that has already been encoded with the
//! appropriate codec. Frames arrive as opaque byte buffers together with their
//! timestamps and keyframe flags, and are packaged into a spec-compliant WebM
//! (Matroska-subset) byte stream.
//!
//! Muxed data is written through a [`mux::Writer`] over an in-memory buffer.
//! Once you have a [`mux::Writer`], you create a [`mux::SegmentBuilder`] and add
//! the tracks you need. Finally, you create a [`mux::Segment`] with that
//! builder, to which you can add media frames. Calling [`mux::Segment::finalize`]
//! seals the segment and hands the writer back; dropping a [`mux::Segment`]
//! without finalizing it is legal but produces an incomplete, likely unplayable
//! file.

pub mod mux;
