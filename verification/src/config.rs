use vstd::prelude::*;

verus! {

broadcast use vstd::seq_lib::group_seq_properties;

/// The whole policy: daemon timing, watched filesystems, preserved paths
/// and lifecycle rules.
#[derive(Clone, Debug)]
pub struct Config {
    pub daemon: DaemonConfig,
    /// Filesystems to watch, each with independent threshold levels.
    pub filesystems: Vec<FilesystemPolicy>,
    /// Glob patterns (or literal paths) that lifecycle management must never
    /// delete or compress.  Threshold commands are not affected.
    pub preserve: Vec<String>,
    /// Logrotate-style rules, run on their own, slower schedule.
    pub lifecycle: Vec<LifecycleRule>,
}

/// Timing of the polling loop; every field has a default.
#[derive(Clone, Copy, Debug)]
pub struct DaemonConfig {
    /// Seconds between disk-usage polls (default 10, at least 1).
    pub interval_seconds: Option<u64>,
    /// Consecutive polls a threshold must stay reached before its commands
    /// run (default 5, at least 1).
    pub health_window: Option<i32>,
    /// Seconds between lifecycle passes (default: the polling interval).
    pub lifecycle_interval_seconds: Option<u64>,
}

/// One watched filesystem and its thresholds.
#[derive(Clone, Debug)]
pub struct FilesystemPolicy {
    /// A path on the filesystem to watch (need not be the mount point).
    pub mount: String,
    /// Threshold levels, kept in ascending order of `usage_percent`.
    pub thresholds: Vec<Threshold>,
}

/// A usage level and the shell commands run when it is sustained.
#[derive(Clone, Debug)]
pub struct Threshold {
    /// Integer percentage (0 to 100) at which the threshold is active.
    pub usage_percent: u32,
    /// Commands run once per breach, after the health window.
    pub commands: Vec<String>,
}

/// A logrotate-style rule for the files that a glob pattern matches.
#[derive(Clone, Debug)]
pub struct LifecycleRule {
    /// Glob pattern of the managed files.
    pub pattern: String,
    /// Delete files at least this many days old.
    pub max_age_days: Option<u64>,
    /// Truncate files of at least this many mebibytes.
    pub max_size_mb: Option<u64>,
    /// Compress (gzip) uncompressed files at least this many days old.
    pub compress_after_days: Option<u64>,
    /// Delete `<pattern>.gz` files at least this many days old.
    pub delete_compressed_after_days: Option<u64>,
}

/// Why a policy was refused.
#[derive(Clone, Debug)]
pub enum ConfigError {
    /// A threshold of the filesystem watched at `mount` is above 100 percent.
    UsageAbove100 { mount: String, usage_percent: u32 },
}

/// The timing the daemon runs with, once defaults are applied.
#[derive(Clone, Copy, Debug, PartialEq, Eq, Structural)]
pub struct Settings {
    pub interval_secs: u64,
    pub health_window: i32,
    pub lifecycle_interval_secs: u64,
}

// ---------------------------------------------------------------------
// Ordering of thresholds
// ---------------------------------------------------------------------

/// The predicate "this threshold has usage percentage `k`".
pub open spec fn has_key(k: u32) -> spec_fn(Threshold) -> bool {
    |t: Threshold| t.usage_percent == k
}

/// The thresholds of `s` with usage percentage `k`, in their order in `s`.
pub open spec fn with_key(s: Seq<Threshold>, k: u32) -> Seq<Threshold> {
    s.filter(has_key(k))
}

/// `s` is in ascending order of usage percentage.
pub open spec fn key_sorted(s: Seq<Threshold>) -> bool {
    forall|i: int, j: int| 0 <= i <= j < s.len() ==> s[i].usage_percent <= s[j].usage_percent
}

/// `out` is the stable ascending sort of `inp` by usage percentage: it is
/// ordered, and for every percentage it holds exactly the thresholds of
/// `inp` with that percentage, in their original order.
pub open spec fn stable_sort_of(out: Seq<Threshold>, inp: Seq<Threshold>) -> bool {
    &&& key_sorted(out)
    &&& forall|k: u32| #[trigger] with_key(out, k) == with_key(inp, k)
}

proof fn lemma_insert_sorted(out: Seq<Threshold>, p: int, t: Threshold)
    requires
        key_sorted(out),
        0 <= p <= out.len(),
        forall|i: int| 0 <= i < p ==> out[i].usage_percent <= t.usage_percent,
        forall|i: int| p <= i < out.len() ==> out[i].usage_percent > t.usage_percent,
    ensures
        key_sorted(out.insert(p, t)),
        forall|k: u32|
            #[trigger] with_key(out.insert(p, t), k) == if k == t.usage_percent {
                with_key(out, k).push(t)
            } else {
                with_key(out, k)
            },
{
    let a = out.subrange(0, p);
    let b = out.subrange(p, out.len() as int);
    assert(out =~= a + b);
    let r = out.insert(p, t);
    assert(r =~= a.push(t) + b);
    out.insert_ensures(p, t);
    assert forall|i: int, j: int| 0 <= i <= j < r.len() implies r[i].usage_percent
        <= r[j].usage_percent by {
        if i < p && j > p {
            assert(r[j] == out[j - 1]);
        } else if i > p {
            assert(r[i] == out[i - 1]);
            assert(r[j] == out[j - 1]);
        }
    }
    assert forall|k: u32| #[trigger] with_key(r, k) == if k == t.usage_percent {
        with_key(out, k).push(t)
    } else {
        with_key(out, k)
    } by {
        let pred = has_key(k);
        Seq::filter_distributes_over_add(a.push(t), b, pred);
        Seq::filter_distributes_over_add(a, b, pred);
        a.lemma_filter_push(t, pred);
        if k == t.usage_percent {
            b.lemma_all_neg_filter_empty(pred);
            assert(b.filter(pred) =~= Seq::<Threshold>::empty());
            assert(with_key(r, k) =~= a.filter(pred).push(t));
            assert(with_key(out, k) =~= a.filter(pred));
        }
    }
}

/// Sorts thresholds stably into ascending order of usage percentage.
pub fn sort_thresholds(thresholds: Vec<Threshold>) -> (sorted: Vec<Threshold>)
    ensures
        stable_sort_of(sorted@, thresholds@),
{
    let ghost orig = thresholds@;
    let mut rest = thresholds;
    let mut out: Vec<Threshold> = Vec::new();
    let ghost mut done: int = 0;
    assert(orig.take(0) =~= Seq::<Threshold>::empty());
    while rest.len() > 0
        invariant
            0 <= done <= orig.len(),
            rest@ =~= orig.skip(done),
            key_sorted(out@),
            forall|k: u32| #[trigger] with_key(out@, k) == with_key(orig.take(done), k),
        decreases rest.len(),
    {
        let t = rest.remove(0);
        assert(t == orig[done]);
        let mut p: usize = 0;
        while p < out.len() && out[p].usage_percent <= t.usage_percent
            invariant
                0 <= p <= out.len(),
                forall|i: int| 0 <= i < p ==> out@[i].usage_percent <= t.usage_percent,
            decreases out.len() - p,
        {
            p = p + 1;
        }
        proof {
            lemma_insert_sorted(out@, p as int, t);
            assert(orig.take(done + 1) =~= orig.take(done).push(t));
            assert forall|k: u32| #[trigger] with_key(orig.take(done + 1), k) == if k
                == t.usage_percent {
                with_key(orig.take(done), k).push(t)
            } else {
                with_key(orig.take(done), k)
            } by {
                orig.take(done).lemma_filter_push(t, has_key(k));
            }
        }
        out.insert(p, t);
        proof {
            done = done + 1;
        }
    }
    assert(orig.take(done) =~= orig);
    out
}


/// Every threshold of `inp` is in `out` and every threshold of `out` is in
/// `inp`, when `out` is a stable sort of `inp`.
proof fn lemma_sort_same_elements(out: Seq<Threshold>, inp: Seq<Threshold>)
    requires
        stable_sort_of(out, inp),
    ensures
        forall|m: int| 0 <= m < inp.len() ==> out.contains(#[trigger] inp[m]),
        forall|q: int| 0 <= q < out.len() ==> inp.contains(#[trigger] out[q]),
{
    assert forall|m: int| 0 <= m < inp.len() implies out.contains(#[trigger] inp[m]) by {
        let k = inp[m].usage_percent;
        inp.lemma_filter_contains(has_key(k), m);
        assert(with_key(out, k) == with_key(inp, k));
        out.lemma_filter_contains_rev(has_key(k), inp[m]);
    }
    assert forall|q: int| 0 <= q < out.len() implies inp.contains(#[trigger] out[q]) by {
        let k = out[q].usage_percent;
        out.lemma_filter_contains(has_key(k), q);
        assert(with_key(out, k) == with_key(inp, k));
        inp.lemma_filter_contains_rev(has_key(k), out[q]);
    }
}

/// Two orderings that are both sorted by percentage and agree on the order
/// of the thresholds of each percentage are the same sequence.
pub proof fn lemma_sorted_by_key_unique(x: Seq<Threshold>, y: Seq<Threshold>)
    requires
        key_sorted(x),
        key_sorted(y),
        forall|k: u32| #[trigger] with_key(x, k) == with_key(y, k),
    ensures
        x == y,
    decreases x.len() + y.len(),
{
    if x.len() == 0 || y.len() == 0 {
        if x.len() != 0 || y.len() != 0 {
            let (full, empty) = if x.len() != 0 {
                (x, y)
            } else {
                (y, x)
            };
            let k = full[0].usage_percent;
            full.lemma_filter_contains(has_key(k), 0);
            assert(with_key(x, k) == with_key(y, k));
            empty.lemma_filter_len(has_key(k));
            assert(with_key(empty, k).len() == 0);
        }
        assert(x =~= y);
    } else {
        let xl = x.last();
        let yl = y.last();
        let kx = xl.usage_percent;
        let ky = yl.usage_percent;
        x.lemma_filter_contains(has_key(kx), x.len() - 1);
        assert(with_key(x, kx) == with_key(y, kx));
        y.lemma_filter_contains_rev(has_key(kx), xl);
        let jy = choose|j: int| 0 <= j < y.len() && y[j] == xl;
        assert(y[jy].usage_percent <= y[y.len() - 1].usage_percent);
        y.lemma_filter_contains(has_key(ky), y.len() - 1);
        assert(with_key(x, ky) == with_key(y, ky));
        x.lemma_filter_contains_rev(has_key(ky), yl);
        let jx = choose|j: int| 0 <= j < x.len() && x[j] == yl;
        assert(x[jx].usage_percent <= x[x.len() - 1].usage_percent);
        assert(kx == ky);
        let xd = x.drop_last();
        let yd = y.drop_last();
        assert(x =~= xd.push(xl));
        assert(y =~= yd.push(yl));
        assert forall|k: u32| #[trigger] with_key(xd, k) == with_key(yd, k) by {
            xd.lemma_filter_push(xl, has_key(k));
            yd.lemma_filter_push(yl, has_key(k));
            assert(with_key(x, k) == with_key(y, k));
            if k == kx {
                assert(with_key(xd, k) =~= with_key(x, k).drop_last());
                assert(with_key(yd, k) =~= with_key(y, k).drop_last());
            }
        }
        xd.lemma_filter_push(xl, has_key(kx));
        yd.lemma_filter_push(yl, has_key(kx));
        assert(with_key(x, kx).last() == xl);
        assert(with_key(y, kx).last() == yl);
        lemma_sorted_by_key_unique(xd, yd);
    }
}

/// No two thresholds share a percentage.
pub open spec fn distinct_keys(s: Seq<Threshold>) -> bool {
    forall|i: int, j: int|
        0 <= i < j < s.len() ==> #[trigger] s[i].usage_percent != #[trigger] s[j].usage_percent
}

proof fn lemma_distinct_with_key_short(s: Seq<Threshold>, k: u32)
    requires
        distinct_keys(s),
    ensures
        with_key(s, k).len() <= 1,
    decreases s.len(),
{
    if s.len() > 0 {
        let d = s.drop_last();
        assert(s =~= d.push(s.last()));
        assert(distinct_keys(d));
        lemma_distinct_with_key_short(d, k);
        d.lemma_filter_push(s.last(), has_key(k));
        if s.last().usage_percent == k {
            assert forall|i: int| 0 <= i < d.len() implies !has_key(k)(d[i]) by {
                assert(s[i].usage_percent != s[s.len() - 1].usage_percent);
            }
            d.lemma_all_neg_filter_empty(has_key(k));
        }
    }
}

proof fn lemma_with_key_members(s: Seq<Threshold>, k: u32, t: Threshold)
    ensures
        with_key(s, k).contains(t) <==> (s.contains(t) && t.usage_percent == k),
{
    if with_key(s, k).contains(t) {
        s.lemma_filter_contains_rev(has_key(k), t);
        let i = choose|i: int| 0 <= i < with_key(s, k).len() && with_key(s, k)[i] == t;
        s.lemma_filter_pred(has_key(k), i);
    }
    if s.contains(t) && t.usage_percent == k {
        let i = choose|i: int| 0 <= i < s.len() && s[i] == t;
        s.lemma_filter_contains(has_key(k), i);
    }
}

/// The order of the thresholds in the policy file does not matter: two
/// policies that list the same thresholds, no two of them with the same
/// percentage, sort into the same sequence.
pub proof fn law_threshold_order_irrelevant(
    a: Seq<Threshold>,
    b: Seq<Threshold>,
    sorted_a: Seq<Threshold>,
    sorted_b: Seq<Threshold>,
)
    requires
        distinct_keys(a),
        distinct_keys(b),
        forall|t: Threshold| a.contains(t) <==> b.contains(t),
        stable_sort_of(sorted_a, a),
        stable_sort_of(sorted_b, b),
    ensures
        sorted_a == sorted_b,
{
    assert forall|k: u32| #[trigger] with_key(sorted_a, k) == with_key(sorted_b, k) by {
        let x = with_key(a, k);
        let y = with_key(b, k);
        lemma_distinct_with_key_short(a, k);
        lemma_distinct_with_key_short(b, k);
        if x.len() == 1 {
            lemma_with_key_members(a, k, x[0]);
            lemma_with_key_members(b, k, x[0]);
            assert(x.contains(x[0]));
            assert(y.contains(x[0]));
            assert(x =~= y);
        } else if y.len() == 1 {
            lemma_with_key_members(a, k, y[0]);
            lemma_with_key_members(b, k, y[0]);
            assert(y.contains(y[0]));
            assert(x.contains(y[0]));
        } else {
            assert(x =~= y);
        }
        assert(with_key(sorted_a, k) == x);
        assert(with_key(sorted_b, k) == y);
    }
    lemma_sorted_by_key_unique(sorted_a, sorted_b);
}

/// A stable sort puts thresholds in ascending order of percentage and keeps
/// exactly the thresholds it was given.
pub proof fn law_sort_ascending_same_thresholds(out: Seq<Threshold>, inp: Seq<Threshold>)
    requires
        stable_sort_of(out, inp),
    ensures
        forall|i: int, j: int|
            0 <= i <= j < out.len() ==> out[i].usage_percent <= out[j].usage_percent,
        forall|t: Threshold| out.contains(t) <==> inp.contains(t),
{
    lemma_sort_same_elements(out, inp);
    assert forall|t: Threshold| out.contains(t) <==> inp.contains(t) by {
        if out.contains(t) {
            let q = choose|q: int| 0 <= q < out.len() && out[q] == t;
            assert(inp.contains(out[q]));
        }
        if inp.contains(t) {
            let m = choose|m: int| 0 <= m < inp.len() && inp[m] == t;
            assert(out.contains(inp[m]));
        }
    }
}

// ---------------------------------------------------------------------
// Validation
// ---------------------------------------------------------------------

/// Some threshold of the policy is above 100 percent.
pub open spec fn policy_over_limit(p: FilesystemPolicy) -> bool {
    exists|j: int| 0 <= j < p.thresholds@.len() && #[trigger] p.thresholds@[j].usage_percent > 100
}

/// `u` is the smallest percentage above 100 among the policy's thresholds.
pub open spec fn least_over_limit(p: FilesystemPolicy, u: u32) -> bool {
    &&& u > 100
    &&& exists|j: int| 0 <= j < p.thresholds@.len() && #[trigger] p.thresholds@[j].usage_percent == u
    &&& forall|j: int|
        0 <= j < p.thresholds@.len() && #[trigger] p.thresholds@[j].usage_percent > 100 ==> u
            <= p.thresholds@[j].usage_percent
}

/// `out` is `inp` with its thresholds stably sorted.
pub open spec fn normalized_policy(out: FilesystemPolicy, inp: FilesystemPolicy) -> bool {
    &&& out.mount == inp.mount
    &&& stable_sort_of(out.thresholds@, inp.thresholds@)
}

/// `out` is `inp` with the thresholds of every filesystem stably sorted.
pub open spec fn normalized_config(out: Config, inp: Config) -> bool {
    &&& out.daemon == inp.daemon
    &&& out.preserve == inp.preserve
    &&& out.lifecycle == inp.lifecycle
    &&& out.filesystems@.len() == inp.filesystems@.len()
    &&& forall|i: int|
        0 <= i < inp.filesystems@.len() ==> normalized_policy(
            #[trigger] out.filesystems@[i],
            inp.filesystems@[i],
        )
}

/// No threshold of the policy is above 100 percent.
pub open spec fn config_within_limits(c: Config) -> bool {
    forall|i: int| 0 <= i < c.filesystems@.len() ==> !policy_over_limit(#[trigger] c.filesystems@[i])
}

/// The error for the first filesystem with a threshold above 100 percent.
pub open spec fn first_violation(c: Config, e: ConfigError) -> bool {
    match e {
        ConfigError::UsageAbove100 { mount, usage_percent } => exists|i: int|
            0 <= i < c.filesystems@.len() && policy_over_limit(#[trigger] c.filesystems@[i]) && (
            forall|m: int| 0 <= m < i ==> !policy_over_limit(#[trigger] c.filesystems@[m]))
                && mount == c.filesystems@[i].mount && least_over_limit(
                c.filesystems@[i],
                usage_percent,
            ),
    }
}

/// The percentage a refused policy is reported with is the first one above
/// 100 in the filesystem's ascending order of thresholds.
pub proof fn law_refused_percent_first_in_order(
    out: Seq<Threshold>,
    inp: Seq<Threshold>,
    j: int,
    p: FilesystemPolicy,
)
    requires
        stable_sort_of(out, inp),
        p.thresholds@ == inp,
        0 <= j < out.len(),
        out[j].usage_percent > 100,
        forall|m: int| 0 <= m < j ==> out[m].usage_percent <= 100,
    ensures
        policy_over_limit(p),
        least_over_limit(p, out[j].usage_percent),
{
    lemma_sort_same_elements(out, inp);
    assert(inp.contains(out[j]));
    let w = choose|w: int| 0 <= w < inp.len() && inp[w] == out[j];
    assert(p.thresholds@[w].usage_percent > 100);
    assert forall|m: int|
        0 <= m < inp.len() && #[trigger] inp[m].usage_percent > 100 implies out[j].usage_percent
        <= inp[m].usage_percent by {
        assert(out.contains(inp[m]));
        let q = choose|q: int| 0 <= q < out.len() && out[q] == inp[m];
        if q < j {
            assert(out[q].usage_percent <= 100);
        }
    }
}

proof fn lemma_none_over(out: Seq<Threshold>, inp: Seq<Threshold>, p: FilesystemPolicy)
    requires
        stable_sort_of(out, inp),
        p.thresholds@ == inp,
        forall|m: int| 0 <= m < out.len() ==> out[m].usage_percent <= 100,
    ensures
        !policy_over_limit(p),
{
    lemma_sort_same_elements(out, inp);
    assert forall|m: int| 0 <= m < inp.len() implies #[trigger] inp[m].usage_percent <= 100 by {
        assert(out.contains(inp[m]));
    }
}

impl Config {
    /// Sorts the thresholds of every filesystem into ascending order and
    /// refuses a policy with a threshold above 100 percent.
    #[verifier::loop_isolation(false)]
    pub fn normalized(self) -> (res: Result<Config, ConfigError>)
        ensures
            match res {
                Ok(c) => config_within_limits(self) && normalized_config(c, self),
                Err(e) => !config_within_limits(self) && first_violation(self, e),
            },
    {
        let ghost input = self;
        let Config { daemon, filesystems, preserve, lifecycle } = self;
        let ghost orig = filesystems@;
        let mut rest = filesystems;
        let mut out: Vec<FilesystemPolicy> = Vec::new();
        while rest.len() > 0
            invariant
                out.len() <= orig.len(),
                orig == input.filesystems@,
                rest@ =~= orig.skip(out.len() as int),
                forall|i: int|
                    0 <= i < out.len() ==> normalized_policy(#[trigger] out@[i], orig[i])
                        && !policy_over_limit(orig[i]),
            decreases rest.len(),
        {
            let fs = rest.remove(0);
            let ghost idx = out.len() as int;
            assert(fs == orig[idx]);
            let FilesystemPolicy { mount, thresholds } = fs;
            let ghost inp = thresholds@;
            let sorted = sort_thresholds(thresholds);
            let mut j: usize = 0;
            while j < sorted.len()
                invariant
                    0 <= j <= sorted.len(),
                    forall|m: int| 0 <= m < j ==> sorted@[m].usage_percent <= 100,
                decreases sorted.len() - j,
            {
                if sorted[j].usage_percent > 100 {
                    let usage_percent = sorted[j].usage_percent;
                    proof {
                        law_refused_percent_first_in_order(sorted@, inp, j as int, orig[idx]);
                        assert(policy_over_limit(input.filesystems@[idx]));
                        assert forall|m: int| 0 <= m < idx implies !policy_over_limit(
                            #[trigger] input.filesystems@[m],
                        ) by {
                            assert(normalized_policy(out@[m], orig[m]));
                        }
                    }
                    let e = ConfigError::UsageAbove100 { mount, usage_percent };
                    assert(first_violation(input, e));
                    return Err(e);
                }
                j = j + 1;
            }
            proof {
                lemma_none_over(sorted@, inp, orig[idx]);
            }
            out.push(FilesystemPolicy { mount, thresholds: sorted });
        }
        assert(out.len() == orig.len());
        assert forall|i: int| 0 <= i < orig.len() implies !policy_over_limit(#[trigger] orig[i])
            && normalized_policy(out@[i], orig[i]) by {
            assert(normalized_policy(out@[i], orig[i]));
        }
        Ok(Config { daemon, filesystems: out, preserve, lifecycle })
    }
}

impl DaemonConfig {
    /// The polling interval, health window and lifecycle interval with
    /// their defaults applied.
    pub fn settings(&self) -> (s: Settings)
        ensures
            s.interval_secs == match self.interval_seconds {
                Some(v) => if v < 1 { 1 } else { v },
                None => 10,
            },
            s.health_window == match self.health_window {
                Some(v) => if v < 1 { 1 } else { v },
                None => 5,
            },
            s.lifecycle_interval_secs == match self.lifecycle_interval_seconds {
                Some(v) => v,
                None => s.interval_secs,
            },
    {
        let interval = match self.interval_seconds {
            Some(v) => v,
            None => 10,
        };
        let interval_secs = if interval < 1 { 1 } else { interval };
        let window = match self.health_window {
            Some(v) => v,
            None => 5,
        };
        let health_window = if window < 1 { 1 } else { window };
        let lifecycle_interval_secs = match self.lifecycle_interval_seconds {
            Some(v) => v,
            None => interval_secs,
        };
        Settings { interval_secs, health_window, lifecycle_interval_secs }
    }
}

} // verus!
