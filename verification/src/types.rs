//! Plain data carried between the audio plane, the recognition plane and
//! the control plane.
//!
//! Samples and volumes travel as `u32` bit patterns of `f32` values, and a
//! recognition timestamp as the `u64` bit pattern of an `f64`.

use vstd::prelude::*;

verus! {

/// Health of an input or output device stream.
#[derive(Clone, Copy, Debug, PartialEq, Eq)]
pub enum InputStatus {
    Okay,
    Error,
    Disabled,
}

impl Default for InputStatus {
    fn default() -> (r: Self)
        ensures
            r == InputStatus::Okay,
    {
        InputStatus::Okay
    }
}

/// The wire code a status is stored under in a shared status cell.
pub open spec fn status_code_spec(s: InputStatus) -> u32 {
    match s {
        InputStatus::Okay => 0,
        InputStatus::Error => 1,
        InputStatus::Disabled => 2,
    }
}

/// The status a stored code reads back as; unknown codes read as `Ok`.
pub open spec fn status_of_code_spec(c: u32) -> InputStatus {
    if c == 1 {
        InputStatus::Error
    } else if c == 2 {
        InputStatus::Disabled
    } else {
        InputStatus::Okay
    }
}

pub fn status_code(s: InputStatus) -> (c: u32)
    ensures
        c == status_code_spec(s),
{
    match s {
        InputStatus::Okay => 0,
        InputStatus::Error => 1,
        InputStatus::Disabled => 2,
    }
}

pub fn status_of_code(c: u32) -> (s: InputStatus)
    ensures
        s == status_of_code_spec(c),
{
    if c == 1 {
        InputStatus::Error
    } else if c == 2 {
        InputStatus::Disabled
    } else {
        InputStatus::Okay
    }
}

/// Storing a status and reading it back returns the same status.
pub proof fn lemma_status_roundtrip(s: InputStatus)
    ensures
        status_of_code_spec(status_code_spec(s)) == s,
{
}

/// One driver callback's worth of tapped audio: a copy of the samples with
/// the configured stream parameters.
#[derive(Clone, Debug, PartialEq)]
pub struct AudioChunk {
    /// Sample bit patterns, in callback order.
    pub samples: Vec<u32>,
    pub sample_rate: u32,
    pub channels: u16,
}

/// One recognition emitted by an engine.
#[derive(Clone, Debug, PartialEq)]
pub struct RecognitionResult {
    pub text: String,
    pub input_id: String,
    /// Bit pattern of the `f64` timestamp.
    pub timestamp_bits: u64,
    /// Only a final result may reach a destination.
    pub is_final: bool,
}

/// Decorates a recognition on its way to one destination.
#[derive(Clone, Debug, PartialEq)]
pub struct TextMetadata {
    pub input_id: String,
    pub prefix: String,
}

#[derive(Clone, Debug, PartialEq)]
pub enum ConfigError {
    /// The config file could not be read.
    FileRead(String),
    /// The file is not well-formed TOML of the expected shape.
    TomlParse(String),
    /// A `${VAR}` reference named an environment variable that is not set.
    EnvVarNotFound(String),
}

#[derive(Clone, Debug, PartialEq)]
pub enum AudioError {
    DeviceNotFound(String),
    DeviceEnumeration(String),
    StreamBuild(String),
    StreamError(String),
}

#[derive(Clone, Debug, PartialEq)]
pub enum AsrError {
    InitializationFailed(String),
    ProcessingFailed(String),
    EngineNotFound(String),
}

#[derive(Clone, Debug, PartialEq)]
pub enum DestinationError {
    InitializationFailed(String),
    SendFailed(String),
    NotFound(String),
    ConnectionLost(String),
}

} // verus!
