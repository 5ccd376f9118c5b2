//! The declarative configuration, its defaults, `${VAR}` interpolation,
//! and the reload diff.
//!
//! The diff between a running config and a newly parsed one is
//! partitioned into reloadable changes — volume, mute, enabled,
//! play-mixed — that the control plane applies live, and non-reloadable
//! ones — sample rate, buffer size, device bindings, engine choice — that
//! are only warned about. A volume edit counts as a change only when the
//! gains differ, as values, by more than machine epsilon.

use crate::fbits::abs_bits;
use crate::fbits::is_nan_bits;
use crate::fbits::sample_abs;
use crate::fbits::sample_is_nan;
use crate::fbits::sample_sub;
use crate::fbits::sub_bits;
use crate::fbits::EPSILON_BITS;
use crate::types::ConfigError;
use crate::util::chars_of_str;
use crate::util::dec_str;
use crate::util::strings_view;
use crate::util::u32_to_string;
use vstd::prelude::*;
use vstd::string::StringExecFns;

verus! {

pub fn default_log_level() -> (s: String)
    ensures
        s@ == "info"@,
{
    String::from_str("info")
}

pub fn default_sample_rate() -> (n: u32)
    ensures
        n == 48000,
{
    48000
}

pub fn default_buffer_size() -> (n: u32)
    ensures
        n == 1024,
{
    1024
}

pub fn default_device_name() -> (s: String)
    ensures
        s@ == "default"@,
{
    String::from_str("default")
}

pub fn default_true() -> (b: bool)
    ensures
        b,
{
    true
}

/// The bit pattern of the default gain `1.0`.
pub fn default_volume_bits() -> (v: u32)
    ensures
        v == crate::fbits::ONE_BITS,
{
    0x3F80_0000
}

pub fn default_language() -> (s: String)
    ensures
        s@ == "ja"@,
{
    String::from_str("ja")
}

pub struct GeneralConfig {
    pub log_level: String,
    pub sample_rate: u32,
    pub buffer_size: u32,
}

impl Default for GeneralConfig {
    fn default() -> (r: Self)
        ensures
            r.log_level@ == "info"@,
            r.sample_rate == 48000,
            r.buffer_size == 1024,
    {
        GeneralConfig {
            log_level: default_log_level(),
            sample_rate: default_sample_rate(),
            buffer_size: default_buffer_size(),
        }
    }
}

pub struct OutputConfig {
    pub device_name: String,
    pub play_mixed_input: bool,
}

impl Default for OutputConfig {
    fn default() -> (r: Self)
        ensures
            r.device_name@ == "default"@,
            r.play_mixed_input,
    {
        OutputConfig { device_name: default_device_name(), play_mixed_input: default_true() }
    }
}

/// One route under an input: destination plugin, prefix, and whatever
/// extra keys the route carries for the plugin.
pub struct DestinationRouteConfig {
    pub plugin: String,
    pub prefix: String,
    pub extra: Option<toml::Value>,
}

pub struct InputConfig {
    pub id: String,
    pub device_name: String,
    pub enabled: bool,
    /// Bit pattern of the input's gain.
    pub volume_bits: u32,
    pub muted: bool,
    pub destinations: Vec<DestinationRouteConfig>,
}

pub struct WhisperConfig {
    pub model_path: String,
    pub language: String,
}

pub struct AsrConfig {
    pub engine: String,
    pub whisper: Option<WhisperConfig>,
}

pub struct AppConfig {
    pub general: GeneralConfig,
    pub output: OutputConfig,
    pub input: Vec<InputConfig>,
    pub asr: Option<AsrConfig>,
    /// Base per-plugin destination tables, overlaid by route extras.
    pub destinations: Option<toml::Value>,
}

/// No two inputs share an id; the config shape requires it.
pub open spec fn unique_input_ids(inputs: Seq<InputConfig>) -> bool {
    forall|i: int, j: int|
        0 <= i < inputs.len() && 0 <= j < inputs.len() && i != j ==> (#[trigger] inputs[i].id@)
            != (#[trigger] inputs[j].id@)
}

/// The first input with the given id, if any.
pub open spec fn find_input(inputs: Seq<InputConfig>, id: Seq<char>) -> Option<InputConfig>
    decreases inputs.len(),
{
    if inputs.len() == 0 {
        Option::None
    } else if inputs[0].id@ == id {
        Option::Some(inputs[0])
    } else {
        find_input(inputs.skip(1), id)
    }
}

/// Looking up an input by its own id, when ids are unique, finds it.
pub proof fn lemma_find_self(inputs: Seq<InputConfig>, i: int)
    requires
        unique_input_ids(inputs),
        0 <= i < inputs.len(),
    ensures
        find_input(inputs, inputs[i].id@) == Option::Some(inputs[i]),
    decreases inputs.len(),
{
    if i == 0 {
    } else {
        assert(inputs[0].id@ != inputs[i].id@);
        assert(unique_input_ids(inputs.skip(1))) by {
            assert forall|a: int, b: int|
                0 <= a < inputs.skip(1).len() && 0 <= b < inputs.skip(1).len() && a
                    != b implies (#[trigger] inputs.skip(1)[a].id@) != (#[trigger] inputs.skip(
                1,
            )[b].id@) by {
                assert(inputs.skip(1)[a] == inputs[a + 1]);
                assert(inputs.skip(1)[b] == inputs[b + 1]);
            };
        };
        assert(inputs.skip(1)[i - 1] == inputs[i]);
        lemma_find_self(inputs.skip(1), i - 1);
    }
}

/// Whether a gain edit is a real change: the reload plane reports a
/// volume change only when the two gains differ, as values, by more than
/// machine epsilon.
pub open spec fn volume_differs(a: u32, b: u32) -> bool {
    let d = sub_bits(a, b);
    !is_nan_bits(d) && abs_bits(d) > EPSILON_BITS
}

/// A gain never counts as changed against itself — equal bit patterns,
/// and also the equal values `+0.0` and `-0.0`.
pub proof fn lemma_volume_self_unchanged(v: u32)
    ensures
        !volume_differs(v, v),
{
    crate::fbits::lemma_sub_self(v);
}

fn volume_differs_exec(a: u32, b: u32) -> (r: bool)
    ensures
        r == volume_differs(a, b),
{
    let d = sample_sub(a, b);
    !sample_is_nan(d) && sample_abs(d) > EPSILON_BITS
}

/// The reloadable volume changes among the first `k` new inputs: those
/// whose id exists in the old config with a gain beyond epsilon away.
pub open spec fn volume_changes_spec(
    olds: Seq<InputConfig>,
    news: Seq<InputConfig>,
    k: int,
) -> Seq<(Seq<char>, u32)>
    decreases k,
{
    if k <= 0 {
        Seq::empty()
    } else {
        let p = volume_changes_spec(olds, news, k - 1);
        let ni = news[k - 1];
        match find_input(olds, ni.id@) {
            Option::Some(oi) => if volume_differs(oi.volume_bits, ni.volume_bits) {
                p.push((ni.id@, ni.volume_bits))
            } else {
                p
            },
            Option::None => p,
        }
    }
}

/// The reloadable mute changes among the first `k` new inputs.
pub open spec fn mute_changes_spec(
    olds: Seq<InputConfig>,
    news: Seq<InputConfig>,
    k: int,
) -> Seq<(Seq<char>, bool)>
    decreases k,
{
    if k <= 0 {
        Seq::empty()
    } else {
        let p = mute_changes_spec(olds, news, k - 1);
        let ni = news[k - 1];
        match find_input(olds, ni.id@) {
            Option::Some(oi) => if oi.muted != ni.muted {
                p.push((ni.id@, ni.muted))
            } else {
                p
            },
            Option::None => p,
        }
    }
}

/// The reloadable enabled changes among the first `k` new inputs.
pub open spec fn enabled_changes_spec(
    olds: Seq<InputConfig>,
    news: Seq<InputConfig>,
    k: int,
) -> Seq<(Seq<char>, bool)>
    decreases k,
{
    if k <= 0 {
        Seq::empty()
    } else {
        let p = enabled_changes_spec(olds, news, k - 1);
        let ni = news[k - 1];
        match find_input(olds, ni.id@) {
            Option::Some(oi) => if oi.enabled != ni.enabled {
                p.push((ni.id@, ni.enabled))
            } else {
                p
            },
            Option::None => p,
        }
    }
}

/// Whether the configured engines differ — a non-reloadable change.
pub open spec fn asr_engine_changed(olds: Option<AsrConfig>, news: Option<AsrConfig>) -> bool {
    match (olds, news) {
        (Option::Some(o), Option::Some(n)) => o.engine@ != n.engine@,
        _ => false,
    }
}

pub open spec fn sample_rate_warning(o: u32, n: u32) -> Seq<char> {
    "sample_rate changed ("@ + dec_str(o as nat) + " -> "@ + dec_str(n as nat)
        + "), requires restart"@
}

pub open spec fn buffer_size_warning(o: u32, n: u32) -> Seq<char> {
    "buffer_size changed ("@ + dec_str(o as nat) + " -> "@ + dec_str(n as nat)
        + "), requires restart"@
}

pub open spec fn output_device_warning(o: Seq<char>, n: Seq<char>) -> Seq<char> {
    "output device changed ('"@ + o + "' -> '"@ + n + "'), requires restart"@
}

pub open spec fn input_device_warning(id: Seq<char>, o: Seq<char>, n: Seq<char>) -> Seq<char> {
    "input '"@ + id + "' device changed ('"@ + o + "' -> '"@ + n + "'), requires restart"@
}

pub open spec fn engine_warning(o: Seq<char>, n: Seq<char>) -> Seq<char> {
    "ASR engine changed ('"@ + o + "' -> '"@ + n + "'), requires restart"@
}

/// The warnings for non-reloadable general settings, in report order:
/// sample rate, buffer size, output device.
pub open spec fn nr_general_warnings(old: AppConfig, new: AppConfig) -> Seq<Seq<char>> {
    let w0 = Seq::<Seq<char>>::empty();
    let w1 = if old.general.sample_rate != new.general.sample_rate {
        w0.push(sample_rate_warning(old.general.sample_rate, new.general.sample_rate))
    } else {
        w0
    };
    let w2 = if old.general.buffer_size != new.general.buffer_size {
        w1.push(buffer_size_warning(old.general.buffer_size, new.general.buffer_size))
    } else {
        w1
    };
    if old.output.device_name@ != new.output.device_name@ {
        w2.push(output_device_warning(old.output.device_name@, new.output.device_name@))
    } else {
        w2
    }
}

/// The warnings for rebound input devices among the first `k` new
/// inputs, in new-config order.
pub open spec fn nr_input_warnings(
    olds: Seq<InputConfig>,
    news: Seq<InputConfig>,
    k: int,
) -> Seq<Seq<char>>
    decreases k,
{
    if k <= 0 {
        Seq::empty()
    } else {
        let p = nr_input_warnings(olds, news, k - 1);
        let ni = news[k - 1];
        match find_input(olds, ni.id@) {
            Option::Some(oi) => if oi.device_name@ != ni.device_name@ {
                p.push(input_device_warning(ni.id@, oi.device_name@, ni.device_name@))
            } else {
                p
            },
            Option::None => p,
        }
    }
}

/// The warning for a swapped engine, if any.
pub open spec fn nr_engine_warnings(old: AppConfig, new: AppConfig) -> Seq<Seq<char>> {
    match (old.asr, new.asr) {
        (Option::Some(o), Option::Some(n)) => if o.engine@ != n.engine@ {
            seq![engine_warning(o.engine@, n.engine@)]
        } else {
            Seq::empty()
        },
        _ => Seq::empty(),
    }
}

/// Every warning line a diff carries, in report order: general settings,
/// input devices, engine — each naming the change it reports.
pub open spec fn nr_warnings_spec(old: AppConfig, new: AppConfig) -> Seq<Seq<char>> {
    nr_general_warnings(old, new) + nr_input_warnings(
        old.input@,
        new.input@,
        new.input@.len() as int,
    ) + nr_engine_warnings(old, new)
}

/// The reloadable/non-reloadable delta between two configs.
pub struct ConfigDiff {
    /// Per input id, the new gain bits.
    pub volume_changes: Vec<(String, u32)>,
    /// Per input id, the new mute flag.
    pub mute_changes: Vec<(String, bool)>,
    /// Per input id, the new enabled flag.
    pub enabled_changes: Vec<(String, bool)>,
    pub play_mixed_change: Option<bool>,
    /// One warning line per non-reloadable change.
    pub non_reloadable: Vec<String>,
}

impl ConfigDiff {
    /// Compare two configs. Volume, mute, enabled and play-mixed changes
    /// come out reloadable; sample rate, buffer size, device and engine
    /// changes come out as non-reloadable warnings.
    pub fn diff(old: &AppConfig, new: &AppConfig) -> (r: ConfigDiff)
        ensures
            r.play_mixed_change == (if old.output.play_mixed_input != new.output.play_mixed_input {
                Option::Some(new.output.play_mixed_input)
            } else {
                Option::<bool>::None
            }),
            ({
                let vcs = volume_changes_spec(old.input@, new.input@, new.input@.len() as int);
                &&& r.volume_changes@.len() == vcs.len()
                &&& forall|k: int|
                    0 <= k < vcs.len() ==> (#[trigger] r.volume_changes@[k]).0@ == vcs[k].0
                        && r.volume_changes@[k].1 == vcs[k].1
            }),
            ({
                let mcs = mute_changes_spec(old.input@, new.input@, new.input@.len() as int);
                &&& r.mute_changes@.len() == mcs.len()
                &&& forall|k: int|
                    0 <= k < mcs.len() ==> (#[trigger] r.mute_changes@[k]).0@ == mcs[k].0
                        && r.mute_changes@[k].1 == mcs[k].1
            }),
            ({
                let ecs = enabled_changes_spec(old.input@, new.input@, new.input@.len() as int);
                &&& r.enabled_changes@.len() == ecs.len()
                &&& forall|k: int|
                    0 <= k < ecs.len() ==> (#[trigger] r.enabled_changes@[k]).0@ == ecs[k].0
                        && r.enabled_changes@[k].1 == ecs[k].1
            }),
            strings_view(r.non_reloadable@) == nr_warnings_spec(*old, *new),
    {
        let mut volume_changes: Vec<(String, u32)> = Vec::new();
        let mut mute_changes: Vec<(String, bool)> = Vec::new();
        let mut enabled_changes: Vec<(String, bool)> = Vec::new();
        let mut non_reloadable: Vec<String> = Vec::new();

        if old.general.sample_rate != new.general.sample_rate {
            let mut w = String::from_str("sample_rate changed (");
            let o = u32_to_string(old.general.sample_rate);
            let n = u32_to_string(new.general.sample_rate);
            w.append(o.as_str());
            w.append(" -> ");
            w.append(n.as_str());
            w.append("), requires restart");
            proof {
                assert(w@ =~= sample_rate_warning(old.general.sample_rate, new.general.sample_rate));
            }
            non_reloadable.push(w);
        }
        if old.general.buffer_size != new.general.buffer_size {
            let mut w = String::from_str("buffer_size changed (");
            let o = u32_to_string(old.general.buffer_size);
            let n = u32_to_string(new.general.buffer_size);
            w.append(o.as_str());
            w.append(" -> ");
            w.append(n.as_str());
            w.append("), requires restart");
            proof {
                assert(w@ =~= buffer_size_warning(old.general.buffer_size, new.general.buffer_size));
            }
            non_reloadable.push(w);
        }
        if !(old.output.device_name == new.output.device_name) {
            let mut w = String::from_str("output device changed ('");
            w.append(old.output.device_name.as_str());
            w.append("' -> '");
            w.append(new.output.device_name.as_str());
            w.append("'), requires restart");
            proof {
                assert(w@ =~= output_device_warning(
                    old.output.device_name@,
                    new.output.device_name@,
                ));
            }
            non_reloadable.push(w);
        }
        proof {
            assert(strings_view(non_reloadable@) =~= nr_general_warnings(*old, *new));
        }

        let play_mixed_change = if old.output.play_mixed_input != new.output.play_mixed_input {
            Some(new.output.play_mixed_input)
        } else {
            None
        };

        let mut k: usize = 0;
        while k < new.input.len()
            invariant
                k <= new.input@.len(),
                ({
                    let vcs = volume_changes_spec(old.input@, new.input@, k as int);
                    &&& volume_changes@.len() == vcs.len()
                    &&& forall|j: int|
                        0 <= j < vcs.len() ==> (#[trigger] volume_changes@[j]).0@ == vcs[j].0
                            && volume_changes@[j].1 == vcs[j].1
                }),
                ({
                    let mcs = mute_changes_spec(old.input@, new.input@, k as int);
                    &&& mute_changes@.len() == mcs.len()
                    &&& forall|j: int|
                        0 <= j < mcs.len() ==> (#[trigger] mute_changes@[j]).0@ == mcs[j].0
                            && mute_changes@[j].1 == mcs[j].1
                }),
                ({
                    let ecs = enabled_changes_spec(old.input@, new.input@, k as int);
                    &&& enabled_changes@.len() == ecs.len()
                    &&& forall|j: int|
                        0 <= j < ecs.len() ==> (#[trigger] enabled_changes@[j]).0@ == ecs[j].0
                            && enabled_changes@[j].1 == ecs[j].1
                }),
                strings_view(non_reloadable@) == nr_general_warnings(*old, *new)
                    + nr_input_warnings(old.input@, new.input@, k as int),
            decreases new.input@.len() - k,
        {
            let ni_id_pos = k;
            let ghost nr_prev = non_reloadable@;
            match Self::find_input_exec(&old.input, &new.input[ni_id_pos].id) {
                Option::Some(oi_pos) => {
                    if volume_differs_exec(
                        old.input[oi_pos].volume_bits,
                        new.input[ni_id_pos].volume_bits,
                    ) {
                        volume_changes.push(
                            (new.input[ni_id_pos].id.clone(), new.input[ni_id_pos].volume_bits),
                        );
                    }
                    if old.input[oi_pos].muted != new.input[ni_id_pos].muted {
                        mute_changes.push(
                            (new.input[ni_id_pos].id.clone(), new.input[ni_id_pos].muted),
                        );
                    }
                    if old.input[oi_pos].enabled != new.input[ni_id_pos].enabled {
                        enabled_changes.push(
                            (new.input[ni_id_pos].id.clone(), new.input[ni_id_pos].enabled),
                        );
                    }
                    if !(old.input[oi_pos].device_name == new.input[ni_id_pos].device_name) {
                        let mut w = String::from_str("input '");
                        w.append(new.input[ni_id_pos].id.as_str());
                        w.append("' device changed ('");
                        w.append(old.input[oi_pos].device_name.as_str());
                        w.append("' -> '");
                        w.append(new.input[ni_id_pos].device_name.as_str());
                        w.append("'), requires restart");
                        proof {
                            assert(w@ =~= input_device_warning(
                                new.input@[ni_id_pos as int].id@,
                                old.input@[oi_pos as int].device_name@,
                                new.input@[ni_id_pos as int].device_name@,
                            ));
                        }
                        non_reloadable.push(w);
                        proof {
                            let g = nr_general_warnings(*old, *new);
                            let p = nr_input_warnings(old.input@, new.input@, k as int);
                            let p1 = nr_input_warnings(old.input@, new.input@, k + 1);
                            let ww = input_device_warning(
                                new.input@[k as int].id@,
                                old.input@[oi_pos as int].device_name@,
                                new.input@[k as int].device_name@,
                            );
                            assert(p1 =~= p.push(ww));
                            assert(strings_view(nr_prev) == g + p);
                            assert(strings_view(nr_prev).len() == nr_prev.len());
                            assert(nr_prev.len() == g.len() + p.len());
                            assert(strings_view(non_reloadable@).len() == non_reloadable@.len());
                            assert(strings_view(non_reloadable@).len() == (g + p1).len());
                            assert forall|j: int|
                                0 <= j < strings_view(non_reloadable@).len() implies strings_view(
                                non_reloadable@,
                            )[j] == (g + p1)[j] by {
                                assert(strings_view(non_reloadable@)[j] == non_reloadable@[j]@);
                                if j < nr_prev.len() {
                                    assert(non_reloadable@[j] == nr_prev[j]);
                                    assert(strings_view(nr_prev)[j] == nr_prev[j]@);
                                    assert(strings_view(nr_prev)[j] == (g + p)[j]);
                                    if j < g.len() {
                                        assert((g + p1)[j] == g[j]);
                                        assert((g + p)[j] == g[j]);
                                    } else {
                                        assert((g + p1)[j] == p1[j - g.len()]);
                                        assert((g + p)[j] == p[j - g.len()]);
                                        assert(p1[j - g.len()] == p[j - g.len()]);
                                    }
                                } else {
                                    assert(j == nr_prev.len());
                                    assert(non_reloadable@[j]@ == ww);
                                    assert((g + p1)[j] == p1[j - g.len()]);
                                    assert(p1[j - g.len()] == ww);
                                }
                            };
                            assert(strings_view(non_reloadable@) =~= g + p1);
                        }
                    } else {
                        proof {
                            let g = nr_general_warnings(*old, *new);
                            let p = nr_input_warnings(old.input@, new.input@, k as int);
                            let p1 = nr_input_warnings(old.input@, new.input@, k + 1);
                            assert(p1 =~= p);
                            assert(strings_view(non_reloadable@) =~= g + p1);
                        }
                    }
                },
                Option::None => {
                    proof {
                        let g = nr_general_warnings(*old, *new);
                        let p = nr_input_warnings(old.input@, new.input@, k as int);
                        let p1 = nr_input_warnings(old.input@, new.input@, k + 1);
                        assert(p1 =~= p);
                        assert(strings_view(non_reloadable@) =~= g + p1);
                    }
                },
            }
            k = k + 1;
        }

        let engine_changed = match (&old.asr, &new.asr) {
            (Option::Some(oa), Option::Some(na)) => !(oa.engine == na.engine),
            _ => false,
        };
        if engine_changed {
            let mut w = String::from_str("ASR engine changed ('");
            match (&old.asr, &new.asr) {
                (Option::Some(oa), Option::Some(na)) => {
                    w.append(oa.engine.as_str());
                    w.append("' -> '");
                    w.append(na.engine.as_str());
                },
                _ => {},
            }
            w.append("'), requires restart");
            proof {
                match (&old.asr, &new.asr) {
                    (Option::Some(oa), Option::Some(na)) => {
                        assert(w@ =~= engine_warning(oa.engine@, na.engine@));
                    },
                    _ => {},
                }
            }
            non_reloadable.push(w);
        }
        proof {
            assert(strings_view(non_reloadable@) =~= nr_warnings_spec(*old, *new));
        }

        ConfigDiff { volume_changes, mute_changes, enabled_changes, play_mixed_change, non_reloadable }
    }

    /// The index of the first input with the given id, if any.
    fn find_input_exec(inputs: &Vec<InputConfig>, id: &String) -> (r: Option<usize>)
        ensures
            r matches Option::Some(i) ==> i < inputs@.len() && find_input(inputs@, id@)
                == Option::Some(inputs@[i as int]),
            r is None ==> find_input(inputs@, id@) is None,
    {
        let mut i: usize = 0;
        proof {
            assert(inputs@.skip(0) =~= inputs@);
        }
        while i < inputs.len()
            invariant
                i <= inputs@.len(),
                find_input(inputs@, id@) == find_input(inputs@.skip(i as int), id@),
                forall|j: int| 0 <= j < i ==> (#[trigger] inputs@[j].id@) != id@,
            decreases inputs@.len() - i,
        {
            if inputs[i].id == *id {
                proof {
                    assert(inputs@.skip(i as int)[0] == inputs@[i as int]);
                }
                return Some(i);
            }
            proof {
                assert(inputs@.skip(i as int)[0] == inputs@[i as int]);
                assert(inputs@.skip(i as int).skip(1) =~= inputs@.skip(i + 1));
            }
            i = i + 1;
        }
        None
    }
}

/// Diffing a config against itself yields the empty diff, provided input
/// ids are unique as the config shape requires.
pub proof fn lemma_diff_identity(c: AppConfig)
    requires
        unique_input_ids(c.input@),
    ensures
        volume_changes_spec(c.input@, c.input@, c.input@.len() as int) == Seq::<(
            Seq<char>,
            u32,
        )>::empty(),
        mute_changes_spec(c.input@, c.input@, c.input@.len() as int) == Seq::<(
            Seq<char>,
            bool,
        )>::empty(),
        enabled_changes_spec(c.input@, c.input@, c.input@.len() as int) == Seq::<(
            Seq<char>,
            bool,
        )>::empty(),
        nr_warnings_spec(c, c) == Seq::<Seq<char>>::empty(),
{
    lemma_identity_prefix(c.input@, c.input@.len() as int);
    assert(nr_warnings_spec(c, c) =~= Seq::<Seq<char>>::empty());
}

proof fn lemma_identity_prefix(inputs: Seq<InputConfig>, k: int)
    requires
        unique_input_ids(inputs),
        k <= inputs.len(),
    ensures
        volume_changes_spec(inputs, inputs, k) == Seq::<(Seq<char>, u32)>::empty(),
        mute_changes_spec(inputs, inputs, k) == Seq::<(Seq<char>, bool)>::empty(),
        enabled_changes_spec(inputs, inputs, k) == Seq::<(Seq<char>, bool)>::empty(),
        nr_input_warnings(inputs, inputs, k) == Seq::<Seq<char>>::empty(),
    decreases k,
{
    if k > 0 {
        lemma_identity_prefix(inputs, k - 1);
        lemma_find_self(inputs, k - 1);
        lemma_volume_self_unchanged(inputs[k - 1].volume_bits);
    }
}

/// Two configs that differ only in reloadable fields: same rates and
/// sizes, same device bindings, same engine.
pub open spec fn reloadable_only(old: AppConfig, new: AppConfig) -> bool {
    &&& old.general.sample_rate == new.general.sample_rate
    &&& old.general.buffer_size == new.general.buffer_size
    &&& old.output.device_name@ == new.output.device_name@
    &&& forall|k: int|
        0 <= k < new.input@.len() ==> match find_input(old.input@, (#[trigger] new.input@[k]).id@) {
            Option::Some(oi) => oi.device_name@ == new.input@[k].device_name@,
            Option::None => true,
        }
    &&& !asr_engine_changed(old.asr, new.asr)
}

/// A diff over configs that differ only in reloadable fields carries no
/// non-reloadable warning; conversely, a changed sample rate, buffer
/// size, device binding or engine always contributes its warning.
pub proof fn lemma_reloadable_diff(old: AppConfig, new: AppConfig)
    ensures
        reloadable_only(old, new) ==> nr_warnings_spec(old, new) == Seq::<Seq<char>>::empty(),
        old.general.sample_rate != new.general.sample_rate ==> nr_warnings_spec(
            old,
            new,
        ).len() >= 1,
        old.general.buffer_size != new.general.buffer_size ==> nr_warnings_spec(
            old,
            new,
        ).len() >= 1,
        old.output.device_name@ != new.output.device_name@ ==> nr_warnings_spec(
            old,
            new,
        ).len() >= 1,
        asr_engine_changed(old.asr, new.asr) ==> nr_warnings_spec(old, new).len() >= 1,
        forall|k: int|
            0 <= k < new.input@.len() && (match find_input(
                old.input@,
                (#[trigger] new.input@[k]).id@,
            ) {
                Option::Some(oi) => oi.device_name@ != new.input@[k].device_name@,
                Option::None => false,
            }) ==> nr_warnings_spec(old, new).len() >= 1,
{
    if reloadable_only(old, new) {
        lemma_nr_input_empty(old.input@, new.input@, new.input@.len() as int);
        assert(nr_warnings_spec(old, new) =~= Seq::<Seq<char>>::empty());
    }
    assert forall|k: int|
        0 <= k < new.input@.len() && (match find_input(
            old.input@,
            (#[trigger] new.input@[k]).id@,
        ) {
            Option::Some(oi) => oi.device_name@ != new.input@[k].device_name@,
            Option::None => false,
        }) implies nr_warnings_spec(old, new).len() >= 1 by {
        lemma_nr_input_at(old.input@, new.input@, k, new.input@.len() as int);
    };
}

proof fn lemma_nr_input_empty(olds: Seq<InputConfig>, news: Seq<InputConfig>, k: int)
    requires
        k <= news.len(),
        forall|j: int|
            0 <= j < news.len() ==> match find_input(olds, (#[trigger] news[j]).id@) {
                Option::Some(oi) => oi.device_name@ == news[j].device_name@,
                Option::None => true,
            },
    ensures
        nr_input_warnings(olds, news, k) == Seq::<Seq<char>>::empty(),
    decreases k,
{
    if k > 0 {
        lemma_nr_input_empty(olds, news, k - 1);
    }
}

proof fn lemma_nr_input_at(olds: Seq<InputConfig>, news: Seq<InputConfig>, j: int, k: int)
    requires
        0 <= j < k <= news.len(),
        match find_input(olds, news[j].id@) {
            Option::Some(oi) => oi.device_name@ != news[j].device_name@,
            Option::None => false,
        },
    ensures
        nr_input_warnings(olds, news, k).len() >= 1,
    decreases k,
{
    if j < k - 1 {
        lemma_nr_input_at(olds, news, j, k - 1);
    }
}

/// The value bound to `name`, searching the variable list front to back.
pub open spec fn lookup_var(vars: Seq<(Seq<char>, Seq<char>)>, name: Seq<char>) -> Option<
    Seq<char>,
>
    decreases vars.len(),
{
    if vars.len() == 0 {
        Option::None
    } else if vars[0].0 == name {
        Option::Some(vars[0].1)
    } else {
        lookup_var(vars.skip(1), name)
    }
}

/// The first `'}'` at or after `i`, if any.
pub open spec fn find_close(s: Seq<char>, i: int) -> Option<int>
    decreases s.len() - i,
{
    if i < 0 || i >= s.len() {
        Option::None
    } else if s[i] == '}' {
        Option::Some(i)
    } else {
        find_close(s, i + 1)
    }
}

proof fn lemma_find_close_bounds(s: Seq<char>, i: int)
    requires
        find_close(s, i) is Some,
    ensures
        i <= find_close(s, i).unwrap() < s.len(),
    decreases s.len() - i,
{
    if 0 <= i < s.len() && s[i] != '}' {
        lemma_find_close_bounds(s, i + 1);
    }
}

/// The interpolation of `s` from position `i` on: every `${NAME}` with a
/// nonempty name whose variable is bound is replaced by its value; the
/// first unbound name is the error. A `${` without a closing brace, and
/// the empty reference `${}`, are copied verbatim.
pub open spec fn interp_from(
    s: Seq<char>,
    vars: Seq<(Seq<char>, Seq<char>)>,
    i: int,
) -> Result<Seq<char>, Seq<char>>
    decreases s.len() - i,
    when 0 <= i
    via interp_from_decreases
{
    if i >= s.len() {
        Result::Ok(Seq::empty())
    } else if s[i] == '$' && i + 1 < s.len() && s[i + 1] == '{' && find_close(s, i + 2) is Some
        && find_close(s, i + 2).unwrap() > i + 2 {
        let j = find_close(s, i + 2).unwrap();
        let name = s.subrange(i + 2, j);
        match lookup_var(vars, name) {
            Option::Some(val) => match interp_from(s, vars, j + 1) {
                Result::Ok(rest) => Result::Ok(val + rest),
                Result::Err(e) => Result::Err(e),
            },
            Option::None => Result::Err(name),
        }
    } else {
        match interp_from(s, vars, i + 1) {
            Result::Ok(rest) => Result::Ok(seq![s[i]] + rest),
            Result::Err(e) => Result::Err(e),
        }
    }
}

#[via_fn]
proof fn interp_from_decreases(s: Seq<char>, vars: Seq<(Seq<char>, Seq<char>)>, i: int) {
    if 0 <= i < s.len() && s[i] == '$' && i + 1 < s.len() && s[i + 1] == '{' && find_close(
        s,
        i + 2,
    ) is Some {
        lemma_find_close_bounds(s, i + 2);
    }
}


pub open spec fn vars_view(vars: Seq<(String, String)>) -> Seq<(Seq<char>, Seq<char>)> {
    vars.map(|j: int, p: (String, String)| (p.0@, p.1@))
}

fn chars_eq(a: &Vec<char>, b: &Vec<char>) -> (r: bool)
    ensures
        r == (a@ == b@),
{
    if a.len() != b.len() {
        proof {
            assert(a@.len() != b@.len());
        }
        return false;
    }
    let mut i: usize = 0;
    while i < a.len()
        invariant
            i <= a@.len(),
            a@.len() == b@.len(),
            forall|j: int| 0 <= j < i ==> a@[j] == b@[j],
        decreases a@.len() - i,
    {
        if a[i] != b[i] {
            return false;
        }
        i = i + 1;
    }
    proof {
        assert(a@ =~= b@);
    }
    true
}

fn find_close_exec(s: &Vec<char>, i: usize) -> (r: Option<usize>)
    ensures
        r matches Option::Some(j) ==> find_close(s@, i as int) == Option::Some(j as int) && i <= j
            < s@.len(),
        r is None ==> find_close(s@, i as int) is None,
    decreases s@.len() - i,
{
    if i >= s.len() {
        None
    } else if s[i] == '}' {
        Some(i)
    } else {
        find_close_exec(s, i + 1)
    }
}

fn lookup_var_exec(vars: &Vec<(String, String)>, name: &Vec<char>) -> (r: Option<Vec<char>>)
    ensures
        r matches Option::Some(v) ==> lookup_var(vars_view(vars@), name@) == Option::Some(v@),
        r is None ==> lookup_var(vars_view(vars@), name@) is None,
{
    let mut i: usize = 0;
    proof {
        assert(vars_view(vars@).skip(0) =~= vars_view(vars@));
    }
    while i < vars.len()
        invariant
            i <= vars@.len(),
            lookup_var(vars_view(vars@), name@) == lookup_var(
                vars_view(vars@).skip(i as int),
                name@,
            ),
        decreases vars@.len() - i,
    {
        let key = chars_of_str(vars[i].0.as_str());
        proof {
            assert(vars_view(vars@).skip(i as int)[0] == vars_view(vars@)[i as int]);
        }
        if chars_eq(&key, name) {
            return Some(chars_of_str(vars[i].1.as_str()));
        }
        proof {
            assert(vars_view(vars@).skip(i as int).skip(1) =~= vars_view(vars@).skip(i + 1));
        }
        i = i + 1;
    }
    None
}

fn interp_from_exec(s: &Vec<char>, vars: &Vec<(String, String)>, i: usize) -> (r: Result<
    Vec<char>,
    Vec<char>,
>)
    ensures
        r matches Ok(v) ==> interp_from(s@, vars_view(vars@), i as int) == Result::<
            Seq<char>,
            Seq<char>,
        >::Ok(v@),
        r matches Err(e) ==> interp_from(s@, vars_view(vars@), i as int) == Result::<
            Seq<char>,
            Seq<char>,
        >::Err(e@),
    decreases s@.len() - i,
{
    if i >= s.len() {
        return Ok(Vec::new());
    }
    if s[i] == '$' && i + 1 < s.len() && s[i + 1] == '{' {
        match find_close_exec(s, i + 2) {
            Option::Some(j) => {
                if j > i + 2 {
                    let mut name: Vec<char> = Vec::new();
                    let mut t: usize = i + 2;
                    while t < j
                        invariant
                            i + 2 <= t <= j < s@.len(),
                            name@ == s@.subrange(i + 2, t as int),
                        decreases j - t,
                    {
                        name.push(s[t]);
                        proof {
                            assert(name@ =~= s@.subrange(i + 2, t + 1));
                        }
                        t = t + 1;
                    }
                    return match lookup_var_exec(vars, &name) {
                        Option::Some(val) => {
                            match interp_from_exec(s, vars, j + 1) {
                                Ok(rest) => {
                                    let mut out = val;
                                    let mut rest = rest;
                                    out.append(&mut rest);
                                    proof {
                                        assert(interp_from(s@, vars_view(vars@), i as int)
                                            matches Result::Ok(o) && o =~= out@);
                                    }
                                    Ok(out)
                                },
                                Err(e) => Err(e),
                            }
                        },
                        Option::None => Err(name),
                    };
                }
            },
            Option::None => {},
        }
        match interp_from_exec(s, vars, i + 1) {
            Ok(rest) => {
                let mut out: Vec<char> = Vec::new();
                out.push(s[i]);
                let mut rest = rest;
                out.append(&mut rest);
                proof {
                    assert(interp_from(s@, vars_view(vars@), i as int) matches Result::Ok(o) && o
                        =~= out@);
                }
                Ok(out)
            },
            Err(e) => Err(e),
        }
    } else {
        match interp_from_exec(s, vars, i + 1) {
            Ok(rest) => {
                let mut out: Vec<char> = Vec::new();
                out.push(s[i]);
                let mut rest = rest;
                out.append(&mut rest);
                proof {
                    assert(interp_from(s@, vars_view(vars@), i as int) matches Result::Ok(o) && o
                        =~= out@);
                }
                Ok(out)
            },
            Err(e) => Err(e),
        }
    }
}

/// Interpolate `${VAR}` references in `input` against the given variable
/// bindings. The first reference to an unbound name is the error, as a
/// [`ConfigError::EnvVarNotFound`] naming it.
pub fn interpolate_vars(input: &Vec<char>, vars: &Vec<(String, String)>) -> (r: Result<
    Vec<char>,
    ConfigError,
>)
    ensures
        r matches Ok(v) ==> interp_from(input@, vars_view(vars@), 0) == Result::<
            Seq<char>,
            Seq<char>,
        >::Ok(v@),
        r matches Err(e) ==> (e matches ConfigError::EnvVarNotFound(n) && interp_from(
            input@,
            vars_view(vars@),
            0,
        ) == Result::<Seq<char>, Seq<char>>::Err(n@)),
{
    match interp_from_exec(input, vars, 0) {
        Ok(v) => Ok(v),
        Err(name) => Err(ConfigError::EnvVarNotFound(crate::util::string_from_chars(&name))),
    }
}

} // verus!
