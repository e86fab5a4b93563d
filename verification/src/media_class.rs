//! Classification of PipeWire media classes.

use vstd::prelude::*;

use crate::text::str_eq;

verus! {

/// The media classes of nodes that play sound.
pub open spec fn sink_class(s: Seq<char>) -> bool {
    s == "Audio/Sink"@ || s == "Audio/Duplex"@
}

/// The media classes of nodes that record sound.
pub open spec fn source_class(s: Seq<char>) -> bool {
    s == "Audio/Source"@ || s == "Audio/Duplex"@ || s == "Audio/Source/Virtual"@
}

/// The media class of playback streams.
pub open spec fn sink_input_class(s: Seq<char>) -> bool {
    s == "Stream/Output/Audio"@
}

/// The media class of recording streams.
pub open spec fn source_output_class(s: Seq<char>) -> bool {
    s == "Stream/Input/Audio"@
}

/// The media classes of nodes whose output can be captured.
pub open spec fn recordable_class(s: Seq<char>) -> bool {
    source_class(s) || sink_class(s) || sink_input_class(s)
}

/// The media classes of streams.
pub open spec fn stream_class(s: Seq<char>) -> bool {
    sink_input_class(s) || source_output_class(s)
}

/// The media classes of device endpoints.
pub open spec fn device_class(s: Seq<char>) -> bool {
    s == "Audio/Sink"@ || s == "Audio/Source"@ || s == "Audio/Duplex"@
        || s == "Audio/Source/Virtual"@
}

pub fn is_sink(s: &str) -> (r: bool)
    ensures
        r == sink_class(s@),
{
    str_eq(s, "Audio/Sink") || str_eq(s, "Audio/Duplex")
}

pub fn is_source(s: &str) -> (r: bool)
    ensures
        r == source_class(s@),
{
    str_eq(s, "Audio/Source") || str_eq(s, "Audio/Duplex") || str_eq(s, "Audio/Source/Virtual")
}

pub fn is_sink_input(s: &str) -> (r: bool)
    ensures
        r == sink_input_class(s@),
{
    str_eq(s, "Stream/Output/Audio")
}

pub fn is_source_output(s: &str) -> (r: bool)
    ensures
        r == source_output_class(s@),
{
    str_eq(s, "Stream/Input/Audio")
}

pub fn is_monitor(s: &str) -> (r: bool)
    ensures
        r == (s@ == "Audio/Sink"@),
{
    str_eq(s, "Audio/Sink")
}

pub fn is_recordable(s: &str) -> (r: bool)
    ensures
        r == recordable_class(s@),
{
    is_source(s) || is_sink(s) || is_sink_input(s)
}

pub fn is_duplex(s: &str) -> (r: bool)
    ensures
        r == (s@ == "Audio/Duplex"@),
{
    str_eq(s, "Audio/Duplex")
}

pub fn is_virtual(s: &str) -> (r: bool)
    ensures
        r == (s@ == "Audio/Source/Virtual"@),
{
    str_eq(s, "Audio/Source/Virtual")
}

pub fn is_stream(s: &str) -> (r: bool)
    ensures
        r == stream_class(s@),
{
    is_sink_input(s) || is_source_output(s)
}

pub fn is_device(s: &str) -> (r: bool)
    ensures
        r == device_class(s@),
{
    str_eq(s, "Audio/Sink") || str_eq(s, "Audio/Source") || str_eq(s, "Audio/Duplex")
        || str_eq(s, "Audio/Source/Virtual")
}

} // verus!
