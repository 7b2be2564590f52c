//! Run configuration: weighted targets parsed from `host:port:weight`
//! specifications, validation of the whole run setup, and the derived name
//! of the outcome store file.

use vstd::prelude::*;
use crate::bucket::MAX_RATE_UNITS;
use crate::textfmt::{
    dec_digits,
    find_char_from,
    index_of_from,
    parse_uint,
    spec_parse_uint,
    u64_to_string,
    underscore_colons,
    underscored,
};

verus! {

/// Mathematical view of one target.
pub struct TargetModel {
    pub host: Seq<char>,
    pub port: int,
    pub weight: int,
}

/// One TCP target: a host, a port, and the nonnegative selection weight
/// ("bias") that sets its share of the traffic.
#[derive(Debug)]
pub struct Target {
    pub host: String,
    pub port: u16,
    pub weight: u32,
}

impl View for Target {
    type V = TargetModel;

    open spec fn view(&self) -> TargetModel {
        TargetModel { host: self.host@, port: self.port as int, weight: self.weight as int }
    }
}

/// What parsing a `host:port:weight` specification yields. The host is
/// everything before the first colon; the port sits between the first and the
/// second colon; the weight runs from the second colon to the third colon or
/// the end, so anything past a third colon is ignored. Parsing fails without
/// two colons, or when the port or the weight is not a number in range.
pub open spec fn parse_target_spec(s: Seq<char>) -> Option<TargetModel> {
    let c1 = index_of_from(s, ':', 0);
    if c1 == s.len() {
        None
    } else {
        let c2 = index_of_from(s, ':', c1 + 1);
        if c2 == s.len() {
            None
        } else {
            let c3 = index_of_from(s, ':', c2 + 1);
            let port = spec_parse_uint(s.subrange(c1 + 1, c2), u16::MAX as int);
            let weight = spec_parse_uint(s.subrange(c2 + 1, c3), u32::MAX as int);
            if port is Some && weight is Some {
                Some(
                    TargetModel {
                        host: s.subrange(0, c1),
                        port: port->Some_0,
                        weight: weight->Some_0,
                    },
                )
            } else {
                None
            }
        }
    }
}

/// Parse one `host:port:weight` target specification.
pub fn parse_target(s: &str) -> (r: Option<Target>)
    ensures
        (r is Some <==> parse_target_spec(s@) is Some),
        r is Some ==> r->Some_0@ == parse_target_spec(s@)->Some_0,
{
    let len = s.unicode_len();
    let c1 = find_char_from(s, ':', len, 0);
    if c1 == len {
        return None;
    }
    let c2 = find_char_from(s, ':', len, c1 + 1);
    if c2 == len {
        return None;
    }
    let c3 = find_char_from(s, ':', len, c2 + 1);
    let port_str = s.substring_char(c1 + 1, c2);
    let weight_str = s.substring_char(c2 + 1, c3);
    let port = parse_uint(port_str, u16::MAX as u64);
    let weight = parse_uint(weight_str, u32::MAX as u64);
    match (port, weight) {
        (Some(p), Some(w)) => {
            proof {
                crate::textfmt::lemma_parse_uint_bounds(
                    s@.subrange(c1 + 1, c2 as int),
                    u16::MAX as int,
                );
                crate::textfmt::lemma_parse_uint_bounds(
                    s@.subrange(c2 + 1, c3 as int),
                    u32::MAX as int,
                );
            }
            let host = s.substring_char(0, c1).to_owned();
            Some(Target { host, port: p as u16, weight: w as u32 })
        },
        _ => None,
    }
}

/// Sum of the weights of a target sequence.
pub open spec fn total_weight_of(ts: Seq<TargetModel>) -> int
    decreases ts.len(),
{
    if ts.len() == 0 {
        0
    } else {
        total_weight_of(ts.drop_last()) + ts.last().weight
    }
}

/// What parsing a whole list of target specifications yields: all of them,
/// or nothing as soon as one is malformed.
pub open spec fn parse_targets_spec(specs: Seq<Seq<char>>) -> Option<Seq<TargetModel>>
    decreases specs.len(),
{
    if specs.len() == 0 {
        Some(Seq::empty())
    } else {
        let rest = parse_targets_spec(specs.drop_last());
        let last = parse_target_spec(specs.last());
        if rest is Some && last is Some {
            Some(rest->Some_0.push(last->Some_0))
        } else {
            None
        }
    }
}

/// Why a run configuration was rejected before the run started.
#[derive(Clone, Copy, Debug, PartialEq, Eq, Structural)]
pub enum ConfigError {
    /// A target specification did not parse as `host:port:weight`.
    MalformedTarget,
    /// Every target has weight zero, so weighted selection is undefined.
    ZeroTotalWeight,
    /// The rate is zero, or too large for the admission counters.
    InvalidRate,
    /// The summed weights exceed the range of the selection draw.
    WeightOverflow,
}

/// An immutable, validated run configuration.
#[derive(Debug)]
pub struct RunConfig {
    /// The weighted targets, in their configured order.
    pub targets: Vec<Target>,
    /// Requests per second, in sub-token units per second (see `bucket`).
    pub rate_units: u64,
    /// Wall-clock length of the run.
    pub duration_seconds: u64,
    /// Bytes fired at a target on every attempt, as configured.
    pub payload: String,
    /// Sum of all target weights, fixed at validation time.
    pub total_weight: u64,
}

impl RunConfig {
    pub open spec fn targets_view(self) -> Seq<TargetModel> {
        self.targets@.map_values(|t: Target| t@)
    }

    /// A validated configuration: positive bounded rate, and a positive
    /// total weight that fits the selection draw.
    pub open spec fn valid(self) -> bool {
        &&& 0 < self.rate_units <= MAX_RATE_UNITS
        &&& 0 < total_weight_of(self.targets_view()) <= u32::MAX
        &&& self.total_weight as int == total_weight_of(self.targets_view())
    }
}

/// Every prefix of a target sequence weighs at most the whole, when weights
/// are nonnegative.
proof fn lemma_total_weight_prefix(ts: Seq<TargetModel>, i: int)
    requires
        0 <= i <= ts.len(),
        forall|j: int| 0 <= j < ts.len() ==> (#[trigger] ts[j]).weight >= 0,
    ensures
        total_weight_of(ts.subrange(0, i)) <= total_weight_of(ts),
    decreases ts.len(),
{
    if i == ts.len() {
        assert(ts.subrange(0, i) =~= ts);
    } else {
        let t = ts.drop_last();
        assert(ts.subrange(0, i) =~= t.subrange(0, i));
        lemma_total_weight_prefix(t, i);
    }
}

/// Validate a whole run setup: parse every `host:port:weight` specification,
/// require a positive bounded rate and a positive total weight. Exactly the
/// configurations that spec-level parsing and the `valid` predicate accept
/// come back `Ok`; each rejection names its reason.
pub fn build_run_config(
    ip_specs: &Vec<String>,
    rate_units: u64,
    duration_seconds: u64,
    payload: String,
) -> (r: Result<RunConfig, ConfigError>)
    ensures
        ({
            let specs = ip_specs@.map_values(|s: String| s@);
            match r {
                Ok(c) => {
                    &&& rate_units > 0 && rate_units <= MAX_RATE_UNITS
                    &&& parse_targets_spec(specs) == Some(c.targets_view())
                    &&& c.valid()
                    &&& c.rate_units == rate_units
                    &&& c.duration_seconds == duration_seconds
                    &&& c.payload@ == payload@
                },
                Err(e) => {
                    ||| (e == ConfigError::InvalidRate && (rate_units == 0 || rate_units
                        > MAX_RATE_UNITS))
                    ||| (e == ConfigError::MalformedTarget && parse_targets_spec(specs) is None)
                    ||| (e == ConfigError::WeightOverflow && (parse_targets_spec(specs) matches Some(
                        ts,
                    ) && total_weight_of(ts) > u32::MAX))
                    ||| (e == ConfigError::ZeroTotalWeight && (parse_targets_spec(specs) matches Some(
                        ts,
                    ) && total_weight_of(ts) == 0))
                },
            }
        }),
{
    if rate_units == 0 || rate_units > MAX_RATE_UNITS {
        return Err(ConfigError::InvalidRate);
    }
    let ghost specs = ip_specs@.map_values(|s: String| s@);
    let mut targets: Vec<Target> = Vec::new();
    let n = ip_specs.len();
    let mut i: usize = 0;
    while i < n
        invariant
            0 <= i <= n,
            n == ip_specs@.len(),
            specs == ip_specs@.map_values(|s: String| s@),
            parse_targets_spec(specs.subrange(0, i as int)) == Some(
                targets@.map_values(|t: Target| t@),
            ),
            targets@.len() == i,
        decreases n - i,
    {
        let ghost pre = specs.subrange(0, i as int);
        assert(specs.subrange(0, i + 1) =~= pre.push(specs[i as int]));
        assert(pre.push(specs[i as int]).drop_last() =~= pre);
        match parse_target(&ip_specs[i]) {
            Some(t) => {
                let ghost old_views = targets@.map_values(|t: Target| t@);
                targets.push(t);
                proof {
                    assert(targets@.map_values(|t: Target| t@) =~= old_views.push(
                        targets@.last()@,
                    ));
                    assert(old_views.push(targets@.last()@).drop_last() =~= old_views);
                }
            },
            None => {
                proof {
                    lemma_parse_prefix_none(specs, i + 1);
                }
                return Err(ConfigError::MalformedTarget);
            },
        }
        i = i + 1;
    }
    assert(specs.subrange(0, n as int) =~= specs);
    let ghost ts = targets@.map_values(|t: Target| t@);
    proof {
        lemma_parse_weights_nonneg(specs);
    }
    let mut total: u64 = 0;
    let mut k: usize = 0;
    proof {
        assert(total_weight_of(ts.subrange(0, 0)) == 0);
    }
    while k < targets.len()
        invariant
            0 <= k <= targets@.len(),
            specs == ip_specs@.map_values(|s: String| s@),
            ts == targets@.map_values(|t: Target| t@),
            parse_targets_spec(specs) == Some(ts),
            forall|j: int| 0 <= j < ts.len() ==> (#[trigger] ts[j]).weight >= 0,
            total == total_weight_of(ts.subrange(0, k as int)),
            total <= u32::MAX,
        decreases targets@.len() - k,
    {
        let w = targets[k].weight;
        let ghost pre = ts.subrange(0, k as int);
        assert(ts.subrange(0, k + 1) =~= pre.push(ts[k as int]));
        assert(pre.push(ts[k as int]).drop_last() =~= pre);
        if total > u32::MAX as u64 - w as u64 {
            proof {
                lemma_total_weight_prefix(ts, k + 1);
            }
            return Err(ConfigError::WeightOverflow);
        }
        total = total + w as u64;
        k = k + 1;
    }
    assert(ts.subrange(0, targets@.len() as int) =~= ts);
    if total == 0 {
        return Err(ConfigError::ZeroTotalWeight);
    }
    Ok(RunConfig { targets, rate_units, duration_seconds, payload, total_weight: total })
}

/// When a prefix of the specifications fails to parse, the whole list does.
proof fn lemma_parse_prefix_none(specs: Seq<Seq<char>>, i: int)
    requires
        0 <= i <= specs.len(),
        parse_targets_spec(specs.subrange(0, i)) is None,
    ensures
        parse_targets_spec(specs) is None,
    decreases specs.len(),
{
    if i < specs.len() {
        let t = specs.drop_last();
        assert(specs.subrange(0, i) =~= t.subrange(0, i));
        lemma_parse_prefix_none(t, i);
    } else {
        assert(specs.subrange(0, i) =~= specs);
    }
}

/// Parsed targets all carry nonnegative weights.
proof fn lemma_parse_weights_nonneg(specs: Seq<Seq<char>>)
    requires
        parse_targets_spec(specs) is Some,
    ensures
        forall|j: int|
            0 <= j < parse_targets_spec(specs)->Some_0.len() ==> (#[trigger] parse_targets_spec(
                specs,
            )->Some_0[j]).weight >= 0,
    decreases specs.len(),
{
    if specs.len() > 0 {
        lemma_parse_weights_nonneg(specs.drop_last());
        let rest = parse_targets_spec(specs.drop_last())->Some_0;
        let last = parse_target_spec(specs.last())->Some_0;
        let s = specs.last();
        let c1 = index_of_from(s, ':', 0);
        let c2 = index_of_from(s, ':', c1 + 1);
        let c3 = index_of_from(s, ':', c2 + 1);
        crate::textfmt::lemma_parse_uint_bounds(s.subrange(c2 + 1, c3), u32::MAX as int);
        let whole = parse_targets_spec(specs)->Some_0;
        assert(whole == rest.push(last));
        assert forall|j: int| 0 <= j < whole.len() implies (#[trigger] whole[j]).weight >= 0 by {
            if j < rest.len() {
                assert(whole[j] == rest[j]);
            } else {
                assert(whole[j] == last);
            }
        }
    }
}

/// The name of the store file for a run: the target specifications with
/// colons rewritten to underscores and joined by underscores, then the rate
/// label, then the duration.
pub open spec fn db_filename_spec(
    ips: Seq<Seq<char>>,
    rate_label: Seq<char>,
    duration: int,
) -> Seq<char> {
    joined_underscored(ips) + "_rate"@ + rate_label + "_dur"@ + dec_digits(duration) + ".db"@
}

/// The target specifications, each with colons rewritten to underscores,
/// joined by single underscores.
pub open spec fn joined_underscored(ips: Seq<Seq<char>>) -> Seq<char>
    decreases ips.len(),
{
    if ips.len() == 0 {
        Seq::empty()
    } else if ips.len() == 1 {
        underscore_colons(ips[0])
    } else {
        joined_underscored(ips.drop_last()) + "_"@ + underscore_colons(ips.last())
    }
}

/// Build the store file name for a run: each target specification with its
/// colons rewritten to underscores, joined by underscores, then the rate
/// label and the duration. The rate label is the caller's spelling of the
/// configured rate.
pub fn generate_db_filename(ips: &Vec<String>, rate_label: &str, duration_seconds: u64) -> (r:
    String)
    ensures
        r@ == db_filename_spec(
            ips@.map_values(|s: String| s@),
            rate_label@,
            duration_seconds as int,
        ),
{
    let ghost views = ips@.map_values(|s: String| s@);
    let mut out = String::new();
    let n = ips.len();
    let mut i: usize = 0;
    proof {
        assert(out@ =~= joined_underscored(views.subrange(0, 0)));
    }
    while i < n
        invariant
            0 <= i <= n,
            n == ips@.len(),
            views == ips@.map_values(|s: String| s@),
            out@ =~= joined_underscored(views.subrange(0, i as int)),
        decreases n - i,
    {
        if i > 0 {
            out.append("_");
        }
        let piece = underscored(ips[i].as_str());
        out.append(piece.as_str());
        proof {
            reveal_strlit("_");
            let pre = views.subrange(0, i as int);
            assert(views.subrange(0, i + 1) =~= pre.push(views[i as int]));
            assert(pre.push(views[i as int]).drop_last() =~= pre);
            assert(out@ =~= joined_underscored(views.subrange(0, i + 1)));
        }
        i = i + 1;
    }
    proof {
        assert(views.subrange(0, n as int) =~= views);
    }
    out.append("_rate");
    out.append(rate_label);
    out.append("_dur");
    let dur = u64_to_string(duration_seconds);
    out.append(dur.as_str());
    out.append(".db");
    proof {
        assert(out@ =~= db_filename_spec(views, rate_label@, duration_seconds as int));
    }
    out
}

} // verus!
