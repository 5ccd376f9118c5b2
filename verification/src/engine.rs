//! Recognition engines and the per-input worker decision logic.
//!
//! An engine turns fed audio into [`RecognitionResult`]s. The null engine
//! acknowledges every chunk with a final result naming the chunk's sample
//! count; the whisper engine is a configuration-holding stub. The worker
//! step function decides, for each event a per-input worker can observe,
//! what the worker does — including stamping every outgoing result with
//! the worker's input id, whatever the engine wrote there.

use crate::tomlval::get_str_field;
use crate::tomlval::toml_str_field;
use crate::types::AsrError;
use crate::types::AudioChunk;
use crate::types::RecognitionResult;
use crate::util::dec_str;
use crate::util::usize_to_string;
use vstd::prelude::*;
use vstd::string::StringExecFns;

verus! {

/// The text the null engine answers a chunk of `n` samples with.
pub open spec fn null_text_spec(n: nat) -> Seq<char> {
    "[null] "@ + dec_str(n) + " samples"@
}

/// The engine that recognizes nothing: it counts the chunks it is fed
/// and answers each one with a final result naming its sample count.
pub struct NullEngine {
    feed_count: usize,
}

impl NullEngine {
    pub closed spec fn count_view(&self) -> nat {
        self.feed_count as nat
    }

    pub fn new() -> (r: NullEngine)
        ensures
            r.count_view() == 0,
    {
        NullEngine { feed_count: 0 }
    }

    pub fn name(&self) -> (s: &str)
        ensures
            s@ == "null"@,
    {
        "null"
    }

    pub fn feed_count(&self) -> (n: usize)
        ensures
            n == self.count_view(),
    {
        self.feed_count
    }

    /// Accept one chunk: count it, and emit the final acknowledgement.
    /// The input id is left empty — the worker stamps it.
    pub fn feed(&mut self, chunk: &AudioChunk) -> (r: RecognitionResult)
        requires
            old(self).count_view() < usize::MAX,
        ensures
            final(self).count_view() == old(self).count_view() + 1,
            r.text@ == null_text_spec(chunk.samples@.len()),
            r.input_id@ == Seq::<char>::empty(),
            r.timestamp_bits == 0,
            r.is_final,
    {
        self.feed_count = self.feed_count + 1;
        let mut text = String::from_str("[null] ");
        let count = usize_to_string(chunk.samples.len());
        text.append(count.as_str());
        text.append(" samples");
        proof {
            assert(text@ =~= null_text_spec(chunk.samples@.len()));
        }
        RecognitionResult { text, input_id: String::new(), timestamp_bits: 0, is_final: true }
    }
}

/// The whisper engine stub: holds the configuration it was given and
/// recognizes nothing.
pub struct WhisperEngine {
    model_path: Option<String>,
    language: Option<String>,
}

impl WhisperEngine {
    pub closed spec fn model_path_view(&self) -> Option<Seq<char>> {
        match self.model_path {
            Option::Some(ref p) => Option::Some(p@),
            Option::None => Option::None,
        }
    }

    pub fn new() -> (r: WhisperEngine)
        ensures
            r.model_path_view() is None,
    {
        WhisperEngine { model_path: None, language: None }
    }

    pub fn name(&self) -> (s: &str)
        ensures
            s@ == "whisper"@,
    {
        "whisper"
    }

    /// Take the model path (required) and language (optional) from the
    /// engine config.
    pub fn initialize(&mut self, config: &toml::Value) -> (r: Result<(), AsrError>)
        ensures
            toml_str_field(config, "model_path"@) is Some ==> r is Ok && final(self).model_path_view() == toml_str_field(config, "model_path"@),
            toml_str_field(config, "model_path"@) is None ==> (r matches Err(
                AsrError::InitializationFailed(m),
            ) && m@ == "missing 'model_path' in whisper config"@ && *final(self) == *old(self)),
    {
        match get_str_field(config, "model_path") {
            Option::Some(p) => {
                self.language = get_str_field(config, "language");
                self.model_path = Some(p);
                Ok(())
            },
            Option::None => Err(
                AsrError::InitializationFailed(
                    String::from_str("missing 'model_path' in whisper config"),
                ),
            ),
        }
    }
}

/// What a per-input worker can observe on its two channels.
#[derive(Clone, Debug)]
pub enum WorkerEvent {
    /// A tapped chunk arrived.
    Tap(AudioChunk),
    /// The tap sender was dropped.
    TapClosed,
    /// The engine emitted a result.
    EngineResult(RecognitionResult),
    /// The engine's result channel closed.
    EngineClosed,
}

/// What the worker does in answer to one event.
#[derive(Clone, Debug, PartialEq)]
pub enum WorkerAction {
    /// Feed the chunk to the engine.
    Feed(AudioChunk),
    /// Forward the stamped result to the aggregate channel.
    Forward(RecognitionResult),
    /// Shut the engine down, then stop.
    ShutdownAndStop,
    /// Stop without touching the engine.
    Stop,
}

/// Give a result the worker's input id, overwriting whatever the engine
/// wrote; everything else is kept.
pub fn stamp_input_id(r: RecognitionResult, input_id: &str) -> (s: RecognitionResult)
    ensures
        s.input_id@ == input_id@,
        s.text == r.text,
        s.timestamp_bits == r.timestamp_bits,
        s.is_final == r.is_final,
{
    RecognitionResult {
        input_id: input_id.to_owned(),
        text: r.text,
        timestamp_bits: r.timestamp_bits,
        is_final: r.is_final,
    }
}

/// One step of the per-input worker: chunks are fed to the engine;
/// results are stamped with the worker's input id and forwarded; a closed
/// tap shuts the engine down; a closed result channel stops the worker.
pub fn worker_step(input_id: &str, ev: WorkerEvent) -> (a: WorkerAction)
    ensures
        ev matches WorkerEvent::Tap(c) ==> (a matches WorkerAction::Feed(c2) && c2 == c),
        ev matches WorkerEvent::TapClosed ==> a is ShutdownAndStop,
        ev matches WorkerEvent::EngineResult(r) ==> (a matches WorkerAction::Forward(s)
            && s.input_id@ == input_id@ && s.text == r.text && s.timestamp_bits
            == r.timestamp_bits && s.is_final == r.is_final),
        ev matches WorkerEvent::EngineClosed ==> a is Stop,
{
    match ev {
        WorkerEvent::Tap(c) => WorkerAction::Feed(c),
        WorkerEvent::TapClosed => WorkerAction::ShutdownAndStop,
        WorkerEvent::EngineResult(r) => WorkerAction::Forward(stamp_input_id(r, input_id)),
        WorkerEvent::EngineClosed => WorkerAction::Stop,
    }
}

} // verus!
