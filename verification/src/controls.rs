//! Lock-free control handles shared between the mixer, the capture and
//! output callbacks, the UI and the config reloader.
//!
//! Each handle wraps reference-counted atomic cells; clones share state.
//! A value read from a cell may have been stored by any thread at any
//! time, so nothing is claimed about what a load returns — the pure
//! clamping and status-code logic around the cells carries the contracts.

use crate::fbits::clamped_volume;
use crate::types::status_code;
use crate::types::status_of_code;
use crate::types::InputStatus;
use core::sync::atomic::AtomicBool;
use core::sync::atomic::AtomicU32;
use core::sync::atomic::Ordering;
use std::sync::Arc;
use vstd::prelude::*;

verus! {

/// Per-input mixer controls: gain and mute, stored in atomic cells, and
/// the input's identifier.
pub struct InputControls {
    volume_bits: Arc<AtomicU32>,
    muted: Arc<AtomicBool>,
    id: String,
}

impl InputControls {
    pub closed spec fn id_view(&self) -> Seq<char> {
        self.id@
    }

    pub fn new(id: &str, volume_bits: u32, muted: bool) -> (r: InputControls)
        ensures
            r.id_view() == id@,
    {
        InputControls {
            volume_bits: Arc::new(AtomicU32::new(volume_bits)),
            muted: Arc::new(AtomicBool::new(muted)),
            id: id.to_owned(),
        }
    }

    /// The gain most recently stored by any sharer of these controls.
    pub fn volume(&self) -> u32 {
        self.volume_bits.load(Ordering::Relaxed)
    }

    pub fn set_volume(&self, v: u32) {
        self.volume_bits.store(v, Ordering::Relaxed);
    }

    pub fn is_muted(&self) -> bool {
        self.muted.load(Ordering::Relaxed)
    }

    pub fn set_muted(&self, m: bool) {
        self.muted.store(m, Ordering::Relaxed);
    }

    pub fn id(&self) -> (s: &str)
        ensures
            s@ == self.id_view(),
    {
        self.id.as_str()
    }

    /// A second handle on the same cells.
    pub fn share(&self) -> (r: InputControls)
        ensures
            r.id_view() == self.id_view(),
    {
        InputControls {
            volume_bits: Arc::clone(&self.volume_bits),
            muted: Arc::clone(&self.muted),
            id: self.id.clone(),
        }
    }
}

/// A clonable handle on one mixer input's controls.
pub struct InputHandle {
    controls: Arc<InputControls>,
}

impl InputHandle {
    pub closed spec fn id_view(&self) -> Seq<char> {
        self.controls.id_view()
    }

    pub(crate) fn from_arc(controls: Arc<InputControls>) -> (r: InputHandle)
        ensures
            r.id_view() == controls.id_view(),
    {
        InputHandle { controls }
    }

    pub fn new(id: &str, volume_bits: u32, muted: bool) -> (r: InputHandle)
        ensures
            r.id_view() == id@,
    {
        InputHandle { controls: Arc::new(InputControls::new(id, volume_bits, muted)) }
    }

    pub fn volume(&self) -> u32 {
        self.controls.volume()
    }

    /// Store a volume, clamped at silence from below: a negative request
    /// is stored as `0.0`. Gain above `1.0` is allowed.
    pub fn set_volume(&self, v: u32) {
        let c = clamped_volume(v);
        self.controls.set_volume(c);
    }

    pub fn is_muted(&self) -> bool {
        self.controls.is_muted()
    }

    pub fn set_muted(&self, m: bool) {
        self.controls.set_muted(m);
    }

    pub fn id(&self) -> (s: &str)
        ensures
            s@ == self.id_view(),
    {
        self.controls.id()
    }
}

impl Clone for InputHandle {
    /// A clone shares the underlying cells with the original.
    fn clone(&self) -> (r: Self)
        ensures
            r.id_view() == self.id_view(),
    {
        InputHandle { controls: Arc::clone(&self.controls) }
    }
}

/// A clonable handle on one capture stream: enabled flag and status.
pub struct CaptureHandle {
    enabled: Arc<AtomicBool>,
    status: Arc<AtomicU32>,
    id: String,
}

impl CaptureHandle {
    pub closed spec fn id_view(&self) -> Seq<char> {
        self.id@
    }

    /// A fresh handle: enabled, status `Ok`.
    pub fn new(id: &str) -> (r: CaptureHandle)
        ensures
            r.id_view() == id@,
    {
        CaptureHandle {
            enabled: Arc::new(AtomicBool::new(true)),
            status: Arc::new(AtomicU32::new(0)),
            id: id.to_owned(),
        }
    }

    pub fn is_enabled(&self) -> bool {
        self.enabled.load(Ordering::Relaxed)
    }

    pub fn set_enabled(&self, v: bool) {
        self.enabled.store(v, Ordering::Relaxed);
    }

    /// The status most recently stored; an unknown stored code reads `Ok`.
    pub fn status(&self) -> InputStatus {
        let c = self.status.load(Ordering::Relaxed);
        status_of_code(c)
    }

    pub fn set_status(&self, s: InputStatus) {
        let c = status_code(s);
        self.status.store(c, Ordering::Relaxed);
    }

    pub fn id(&self) -> (s: &str)
        ensures
            s@ == self.id_view(),
    {
        self.id.as_str()
    }
}

impl Clone for CaptureHandle {
    /// A clone shares the underlying cells with the original.
    fn clone(&self) -> (r: Self)
        ensures
            r.id_view() == self.id_view(),
    {
        CaptureHandle {
            enabled: Arc::clone(&self.enabled),
            status: Arc::clone(&self.status),
            id: self.id.clone(),
        }
    }
}

/// A clonable handle on the output stream: playing flag and status.
pub struct OutputHandle {
    playing: Arc<AtomicBool>,
    status: Arc<AtomicU32>,
}

impl OutputHandle {
    /// A fresh handle: playing, status `Ok`.
    pub fn new() -> OutputHandle {
        OutputHandle {
            playing: Arc::new(AtomicBool::new(true)),
            status: Arc::new(AtomicU32::new(0)),
        }
    }

    pub fn is_playing(&self) -> bool {
        self.playing.load(Ordering::Relaxed)
    }

    pub fn set_playing(&self, v: bool) {
        self.playing.store(v, Ordering::Relaxed);
    }

    /// The status most recently stored; an unknown stored code reads `Ok`.
    pub fn status(&self) -> InputStatus {
        let c = self.status.load(Ordering::Relaxed);
        status_of_code(c)
    }

    pub fn set_status(&self, s: InputStatus) {
        let c = status_code(s);
        self.status.store(c, Ordering::Relaxed);
    }
}

impl Clone for OutputHandle {
    /// A clone shares the underlying cells with the original.
    fn clone(&self) -> (r: Self) {
        OutputHandle { playing: Arc::clone(&self.playing), status: Arc::clone(&self.status) }
    }
}

} // verus!
