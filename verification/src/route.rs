//! Fan-out of finalized recognitions to per-input destination routes.
//!
//! A route binds one input's final recognitions to one destination
//! instance with a prefix. Planning a dispatch is pure and verified: a
//! final result produces exactly one send per route registered for its
//! input, in registration order; a non-final result produces none.

use crate::types::DestinationError;
use crate::types::RecognitionResult;
use crate::types::TextMetadata;
use crate::tomlval::get_int_field;
use crate::tomlval::get_str_field;
use crate::tomlval::toml_int_field;
use crate::tomlval::toml_str_field;
use vstd::prelude::*;
use vstd::string::StringExecFns;

verus! {

/// One registered route: which input it listens to, which destination
/// plugin serves it, and the prefix glued onto every line.
pub struct RouteEntry {
    pub input_id: String,
    pub plugin: String,
    pub prefix: String,
}

/// One planned send: which route receives it and what it receives.
pub struct Dispatch {
    pub route_index: usize,
    pub text: String,
    pub meta: TextMetadata,
}

/// The indices among the first `k` routes whose input is `id`, in order.
pub open spec fn matching_routes(entries: Seq<RouteEntry>, id: Seq<char>, k: int) -> Seq<int>
    decreases k,
{
    if k <= 0 {
        Seq::empty()
    } else {
        let p = matching_routes(entries, id, k - 1);
        if entries[k - 1].input_id@ == id {
            p.push(k - 1)
        } else {
            p
        }
    }
}

/// How often `x` occurs in `s`.
pub open spec fn count_idx(s: Seq<int>, x: int) -> nat
    decreases s.len(),
{
    if s.len() == 0 {
        0
    } else {
        count_idx(s.drop_last(), x) + if s.last() == x {
            1nat
        } else {
            0nat
        }
    }
}

proof fn lemma_count_push(s: Seq<int>, v: int, x: int)
    ensures
        count_idx(s.push(v), x) == count_idx(s, x) + if v == x {
            1nat
        } else {
            0nat
        },
{
    assert(s.push(v).drop_last() =~= s);
}

proof fn lemma_matching_in_range(entries: Seq<RouteEntry>, id: Seq<char>, k: int, j: int)
    requires
        0 <= j < matching_routes(entries, id, k).len(),
    ensures
        0 <= matching_routes(entries, id, k)[j] < k,
        entries[matching_routes(entries, id, k)[j]].input_id@ == id,
    decreases k,
{
    if k > 0 {
        let p = matching_routes(entries, id, k - 1);
        if entries[k - 1].input_id@ == id {
            if j < p.len() {
                lemma_matching_in_range(entries, id, k - 1, j);
            }
        } else {
            lemma_matching_in_range(entries, id, k - 1, j);
        }
    }
}

proof fn lemma_count_out_of_range(entries: Seq<RouteEntry>, id: Seq<char>, k: int, x: int)
    requires
        x >= k || x < 0,
    ensures
        count_idx(matching_routes(entries, id, k), x) == 0,
    decreases k,
{
    if k > 0 {
        let p = matching_routes(entries, id, k - 1);
        lemma_count_out_of_range(entries, id, k - 1, x);
        if entries[k - 1].input_id@ == id {
            lemma_count_push(p, k - 1, x);
        }
    }
}

/// Every route registered for `id` among the first `k` appears exactly
/// once in the match list; every other route appears not at all.
pub proof fn lemma_each_route_once(entries: Seq<RouteEntry>, id: Seq<char>, k: int, i: int)
    requires
        0 <= i < k,
    ensures
        entries[i].input_id@ == id ==> count_idx(matching_routes(entries, id, k), i) == 1,
        entries[i].input_id@ != id ==> count_idx(matching_routes(entries, id, k), i) == 0,
    decreases k,
{
    let p = matching_routes(entries, id, k - 1);
    if i < k - 1 {
        lemma_each_route_once(entries, id, k - 1, i);
    } else {
        lemma_count_out_of_range(entries, id, k - 1, i);
    }
    if entries[k - 1].input_id@ == id {
        lemma_count_push(p, k - 1, i);
    }
}

/// The routing table of the destination host.
pub struct RouteTable {
    pub entries: Vec<RouteEntry>,
}

impl RouteTable {
    pub fn new() -> (r: RouteTable)
        ensures
            r.entries@.len() == 0,
    {
        RouteTable { entries: Vec::new() }
    }

    /// Register a route; routes for one input dispatch in registration
    /// order.
    pub fn add_entry(&mut self, input_id: &str, plugin: &str, prefix: &str)
        ensures
            final(self).entries@.len() == old(self).entries@.len() + 1,
            final(self).entries@.last().input_id@ == input_id@,
            final(self).entries@.last().plugin@ == plugin@,
            final(self).entries@.last().prefix@ == prefix@,
            forall|j: int|
                0 <= j < old(self).entries@.len() ==> final(self).entries@[j] == old(
                    self,
                ).entries@[j],
    {
        self.entries.push(
            RouteEntry {
                input_id: input_id.to_owned(),
                plugin: plugin.to_owned(),
                prefix: prefix.to_owned(),
            },
        );
    }

    /// Plan the sends for one recognition: none unless it is final; for a
    /// final one, exactly one send per route registered for its input, in
    /// order, carrying the text and the route's prefix.
    pub fn plan_dispatch(&self, r: &RecognitionResult) -> (d: Vec<Dispatch>)
        ensures
            !r.is_final ==> d@.len() == 0,
            r.is_final ==> {
                let ms = matching_routes(self.entries@, r.input_id@, self.entries@.len() as int);
                &&& d@.len() == ms.len()
                &&& forall|k: int|
                    0 <= k < d@.len() ==> (#[trigger] d@[k].route_index) as int == ms[k]
                &&& forall|k: int| 0 <= k < d@.len() ==> (#[trigger] d@[k].text)@ == r.text@
                &&& forall|k: int|
                    0 <= k < d@.len() ==> (#[trigger] d@[k].meta).input_id@ == r.input_id@
                &&& forall|k: int|
                    0 <= k < d@.len() ==> (#[trigger] d@[k].meta).prefix@ == self.entries@[
                        ms[k]
                    ].prefix@
            },
    {
        let mut d: Vec<Dispatch> = Vec::new();
        if !r.is_final {
            return d;
        }
        let mut j: usize = 0;
        while j < self.entries.len()
            invariant
                j <= self.entries@.len(),
                ({
                    let ms = matching_routes(self.entries@, r.input_id@, j as int);
                    &&& d@.len() == ms.len()
                    &&& forall|k: int|
                        0 <= k < d@.len() ==> (#[trigger] d@[k].route_index) as int == ms[k]
                    &&& forall|k: int| 0 <= k < d@.len() ==> (#[trigger] d@[k].text)@ == r.text@
                    &&& forall|k: int|
                        0 <= k < d@.len() ==> (#[trigger] d@[k].meta).input_id@ == r.input_id@
                    &&& forall|k: int|
                        0 <= k < d@.len() ==> (#[trigger] d@[k].meta).prefix@ == self.entries@[
                            ms[k]
                        ].prefix@
                }),
            decreases self.entries@.len() - j,
        {
            let matches_id = self.entries[j].input_id == r.input_id;
            if matches_id {
                d.push(
                    Dispatch {
                        route_index: j,
                        text: r.text.clone(),
                        meta: TextMetadata {
                            input_id: r.input_id.clone(),
                            prefix: self.entries[j].prefix.clone(),
                        },
                    },
                );
            }
            proof {
                let ms = matching_routes(self.entries@, r.input_id@, j + 1);
                let msp = matching_routes(self.entries@, r.input_id@, j as int);
                assert forall|k: int| 0 <= k < ms.len() implies 0 <= #[trigger] ms[k]
                    < self.entries@.len() by {
                    lemma_matching_in_range(self.entries@, r.input_id@, j + 1, k);
                };
                assert(d@.len() == ms.len());
                assert forall|k: int| 0 <= k < d@.len() implies (#[trigger] d@[k].route_index)
                    as int == ms[k] by {
                    if k < msp.len() {
                        assert(ms[k] == msp[k]);
                    }
                }
                assert forall|k: int| 0 <= k < d@.len() implies (#[trigger] d@[k].meta).prefix@
                    == self.entries@[ms[k]].prefix@ by {
                    if k < msp.len() {
                        assert(ms[k] == msp[k]);
                    } else {
                        assert(ms[k] == j as int);
                    }
                }
            }
            j = j + 1;
        }
        d
    }

    pub fn len(&self) -> (n: usize)
        ensures
            n == self.entries@.len(),
    {
        self.entries.len()
    }
}

/// The line a file destination appends for one send.
pub open spec fn file_line_spec(prefix: Seq<char>, text: Seq<char>) -> Seq<char> {
    prefix + text + "\n"@
}

/// The line the forwarder shows the UI for a final result.
pub open spec fn forward_line_spec(id: Seq<char>, text: Seq<char>) -> Seq<char> {
    "["@ + id + "] "@ + text
}

/// Format the line a file destination appends: prefix, text, newline.
pub fn file_line(prefix: &str, text: &str) -> (s: String)
    ensures
        s@ == file_line_spec(prefix@, text@),
{
    let mut s = prefix.to_owned();
    s.append(text);
    s.append("\n");
    proof {
        assert(s@ =~= file_line_spec(prefix@, text@));
    }
    s
}

/// Format the UI line for a final result: `[input] text`.
pub fn forward_line(r: &RecognitionResult) -> (s: String)
    ensures
        s@ == forward_line_spec(r.input_id@, r.text@),
{
    let mut s = String::from_str("[");
    s.append(r.input_id.as_str());
    s.append("] ");
    s.append(r.text.as_str());
    proof {
        assert(s@ =~= forward_line_spec(r.input_id@, r.text@));
    }
    s
}

/// The file destination: appends one line per final text to a configured
/// path. The path extraction and line format are verified; the write
/// itself is I/O and lives with the caller.
pub struct FileDestination {
    output_path: Option<String>,
    send_count: usize,
}

impl FileDestination {
    pub closed spec fn path_view(&self) -> Option<Seq<char>> {
        match self.output_path {
            Option::Some(ref p) => Option::Some(p@),
            Option::None => Option::None,
        }
    }

    pub closed spec fn count_view(&self) -> nat {
        self.send_count as nat
    }

    pub fn new() -> (r: FileDestination)
        ensures
            r.path_view() is None,
            r.count_view() == 0,
    {
        FileDestination { output_path: None, send_count: 0 }
    }

    pub fn name(&self) -> (s: &str)
        ensures
            s@ == "file"@,
    {
        "file"
    }

    /// Take the output path from the plugin config: the `path` key is
    /// required, and missing it fails initialization.
    pub fn initialize(&mut self, config: &toml::Value) -> (r: Result<(), DestinationError>)
        ensures
            toml_str_field(config, "path"@) is Some ==> r is Ok && final(self).path_view()
                == toml_str_field(config, "path"@) && final(self).count_view() == old(
                self,
            ).count_view(),
            toml_str_field(config, "path"@) is None ==> (r matches Err(
                DestinationError::InitializationFailed(m),
            ) && m@ == "missing 'path' in config"@ && *final(self) == *old(self)),
    {
        match get_str_field(config, "path") {
            Option::Some(p) => {
                self.output_path = Some(p);
                Ok(())
            },
            Option::None => Err(
                DestinationError::InitializationFailed(String::from_str("missing 'path' in config")),
            ),
        }
    }

    /// The path and the line one send appends, or the send failure when
    /// the destination was never initialized.
    pub fn line_for(&self, text: &str, meta: &TextMetadata) -> (r: Result<
        (String, String),
        DestinationError,
    >)
        ensures
            self.path_view() is Some ==> (r matches Ok(pl) && pl.0@ == self.path_view().unwrap()
                && pl.1@ == file_line_spec(meta.prefix@, text@)),
            self.path_view() is None ==> (r matches Err(DestinationError::SendFailed(m)) && m@
                == "not initialized"@),
    {
        match self.output_path {
            Option::Some(ref p) => {
                let line = file_line(meta.prefix.as_str(), text);
                Ok((p.clone(), line))
            },
            Option::None => Err(DestinationError::SendFailed(String::from_str("not initialized"))),
        }
    }

    /// Record one completed send.
    pub fn record_send(&mut self)
        requires
            old(self).count_view() < usize::MAX,
        ensures
            final(self).count_view() == old(self).count_view() + 1,
            final(self).path_view() == old(self).path_view(),
    {
        self.send_count = self.send_count + 1;
    }

    pub fn send_count(&self) -> (n: usize)
        ensures
            n == self.count_view(),
    {
        self.send_count
    }

    pub fn is_healthy(&self) -> (b: bool)
        ensures
            b == (self.path_view() is Some),
    {
        self.output_path.is_some()
    }
}

/// The chat-service destination stub: accepts its config and reports
/// health, but sends nowhere.
pub struct DiscordDestination {
    token: Option<String>,
    guild_id: Option<u64>,
    channel_id: Option<u64>,
}

impl DiscordDestination {
    pub closed spec fn token_view(&self) -> Option<Seq<char>> {
        match self.token {
            Option::Some(ref t) => Option::Some(t@),
            Option::None => Option::None,
        }
    }

    pub fn new() -> (r: DiscordDestination)
        ensures
            r.token_view() is None,
    {
        DiscordDestination { token: None, guild_id: None, channel_id: None }
    }

    pub fn name(&self) -> (s: &str)
        ensures
            s@ == "discord"@,
    {
        "discord"
    }

    /// Take token (required), guild and channel ids (optional) from the
    /// plugin config.
    pub fn initialize(&mut self, config: &toml::Value) -> (r: Result<(), DestinationError>)
        ensures
            toml_str_field(config, "token"@) is Some ==> r is Ok && final(self).token_view()
                == toml_str_field(config, "token"@),
            toml_str_field(config, "token"@) is None ==> (r matches Err(
                DestinationError::InitializationFailed(m),
            ) && m@ == "missing 'token' in config"@ && *final(self) == *old(self)),
    {
        match get_str_field(config, "token") {
            Option::Some(t) => {
                let g = get_int_field(config, "guild_id");
                let c = get_int_field(config, "channel_id");
                self.token = Some(t);
                self.guild_id = match g {
                    Option::Some(v) => Some(v as u64),
                    Option::None => None,
                };
                self.channel_id = match c {
                    Option::Some(v) => Some(v as u64),
                    Option::None => None,
                };
                Ok(())
            },
            Option::None => Err(
                DestinationError::InitializationFailed(
                    String::from_str("missing 'token' in config"),
                ),
            ),
        }
    }

    pub fn is_healthy(&self) -> (b: bool)
        ensures
            b == (self.token_view() is Some),
    {
        self.token.is_some()
    }
}

} // verus!
