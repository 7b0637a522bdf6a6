use vstd::prelude::*;

use crate::config::LifecycleRule;
use crate::text::str_equal;

verus! {

/// Seconds in a day.
pub const SECS_PER_DAY: u64 = 86_400;

/// Bytes in a mebibyte.
pub const BYTES_PER_MIB: u64 = 1_048_576;

/// What a lifecycle rule does to one matched file.
#[derive(Clone, Copy, Debug, PartialEq, Eq, Structural)]
pub enum FileAction {
    /// Gzip the file: it is `age_days` old, at least `after_days`.
    Compress { age_days: u64, after_days: u64 },
    /// Delete the file: it is `age_days` old, at least `max_days`.
    Delete { age_days: u64, max_days: u64 },
    /// Empty the file: it holds `size_mb` MiB, at least `max_mb`.
    Truncate { size_mb: u64, max_mb: u64 },
    /// Leave the file as it is.
    Keep,
    /// Not managed: the path is not a regular file, or it is preserved.
    Skip,
}

/// Why a path is protected from lifecycle management.
#[derive(Clone, Copy, Debug, PartialEq, Eq, Structural)]
pub enum PreserveHit {
    /// The preserve pattern, expanded as a glob, names the path.
    Glob,
    /// The preserve pattern is the path itself.
    Literal,
}

/// What the lifecycle scheduler does at one poll.
#[derive(Clone, Copy, Debug, PartialEq, Eq, Structural)]
pub enum LifecycleTick {
    /// Nothing: no rules, or the interval has not passed.
    Idle,
    /// Start a lifecycle pass now.
    Start,
    /// A pass is due but the previous one is still running; skip it.
    Busy,
}

/// Whole days in `elapsed_secs` seconds.
pub fn age_in_days(elapsed_secs: u64) -> (days: u64)
    ensures
        days == elapsed_secs / SECS_PER_DAY,
{
    elapsed_secs / SECS_PER_DAY
}

/// Whole mebibytes in `len` bytes.
pub fn size_in_mib(len: u64) -> (mib: u64)
    ensures
        mib == len / BYTES_PER_MIB,
{
    len / BYTES_PER_MIB
}

/// The path names a gzip file (it ends in `.gz`).
pub open spec fn is_gz_path(path: Seq<char>) -> bool {
    path.len() >= 3 && path.subrange(path.len() - 3, path.len() as int) == ".gz"@
}

/// What `rule` does to a path that its glob matched, given whether it is a
/// regular file, whether a preserve pattern protects it, and its age in days
/// and size in MiB (each `None` where it could not be read).  Other paths
/// and preserved files are skipped.  Otherwise the steps are tried in order
/// and the first that applies wins: compress an uncompressed file old
/// enough, delete a file old enough, truncate a file large enough.
pub open spec fn file_plan(
    rule: LifecycleRule,
    path: Seq<char>,
    is_file: bool,
    preserved: bool,
    age_days: Option<u64>,
    size_mb: Option<u64>,
) -> FileAction {
    if !is_file || preserved {
        FileAction::Skip
    } else if rule.compress_after_days is Some && age_days is Some && !is_gz_path(path)
        && age_days->0 >= rule.compress_after_days->0 {
        FileAction::Compress { age_days: age_days->0, after_days: rule.compress_after_days->0 }
    } else if rule.max_age_days is Some && age_days is Some && age_days->0
        >= rule.max_age_days->0 {
        FileAction::Delete { age_days: age_days->0, max_days: rule.max_age_days->0 }
    } else if rule.max_size_mb is Some && size_mb is Some && size_mb->0 >= rule.max_size_mb->0 {
        FileAction::Truncate { size_mb: size_mb->0, max_mb: rule.max_size_mb->0 }
    } else {
        FileAction::Keep
    }
}

/// A compressed sibling of the given age is deleted by `rule`: it is not
/// preserved, and it is at least the rule's maximum age for compressed files.
pub open spec fn compressed_deleted(rule: LifecycleRule, preserved: bool, age_days: Option<u64>) -> bool {
    !preserved && rule.delete_compressed_after_days is Some && age_days is Some && age_days->0
        >= rule.delete_compressed_after_days->0
}

/// What one preserve pattern says of `path`, given whether its glob
/// expansion names the path.
pub open spec fn pattern_hit(path: Seq<char>, pattern: Seq<char>, glob_hit: bool) -> Option<
    PreserveHit,
> {
    if glob_hit {
        Some(PreserveHit::Glob)
    } else if path == pattern {
        Some(PreserveHit::Literal)
    } else {
        None
    }
}

/// Some preserve pattern names `path`, by its glob expansion (`glob_hits`)
/// or literally.
pub open spec fn preserved(path: Seq<char>, patterns: Seq<String>, glob_hits: Seq<bool>) -> bool {
    exists|i: int|
        0 <= i < patterns.len() && #[trigger] pattern_hit(path, patterns[i]@, glob_hits[i]) is Some
}

fn ends_in_gz(path: &str) -> (gz: bool)
    ensures
        gz == is_gz_path(path@),
{
    let n = path.unicode_len();
    if n < 3 {
        return false;
    }
    let tail = path.substring_char(n - 3, n);
    str_equal(tail, ".gz")
}

impl LifecycleRule {
    /// What this rule does to the path at `path` that its glob matched.
    pub fn plan_file(
        &self,
        path: &str,
        is_file: bool,
        preserved: bool,
        age_days: Option<u64>,
        size_mb: Option<u64>,
    ) -> (action: FileAction)
        ensures
            action == file_plan(*self, path@, is_file, preserved, age_days, size_mb),
    {
        if !is_file || preserved {
            return FileAction::Skip;
        }
        if let (Some(after_days), Some(age)) = (self.compress_after_days, age_days) {
            if age >= after_days && !ends_in_gz(path) {
                return FileAction::Compress { age_days: age, after_days };
            }
        }
        if let (Some(max_days), Some(age)) = (self.max_age_days, age_days) {
            if age >= max_days {
                return FileAction::Delete { age_days: age, max_days };
            }
        }
        if let (Some(max_mb), Some(size)) = (self.max_size_mb, size_mb) {
            if size >= max_mb {
                return FileAction::Truncate { size_mb: size, max_mb };
            }
        }
        FileAction::Keep
    }

    /// The glob for the compressed siblings this rule deletes, with their
    /// maximum age in days: the rule's pattern followed by `.gz`.
    pub fn compressed_sweep(&self) -> (sweep: Option<(String, u64)>)
        ensures
            match self.delete_compressed_after_days {
                Some(days) => sweep matches Some((glob, max_days)) && glob@ == self.pattern@
                    + ".gz"@ && max_days == days,
                None => sweep is None,
            },
    {
        match self.delete_compressed_after_days {
            Some(days) => {
                let mut pattern = self.pattern.clone();
                pattern.append(".gz");
                Some((pattern, days))
            },
            None => None,
        }
    }

    /// Whether a compressed sibling of the given age is deleted: it is not
    /// preserved and is old enough.
    pub fn compressed_expired(&self, preserved: bool, age_days: Option<u64>) -> (expired: bool)
        ensures
            expired == compressed_deleted(*self, preserved, age_days),
    {
        if preserved {
            return false;
        }
        match (self.delete_compressed_after_days, age_days) {
            (Some(max_days), Some(age)) => age >= max_days,
            _ => false,
        }
    }
}

/// Whether one preserve pattern protects `path`: its glob expansion names
/// the path (`glob_hit`), or the pattern is the path itself.
pub fn preserve_hit(path: &str, pattern: &str, glob_hit: bool) -> (hit: Option<PreserveHit>)
    ensures
        hit == pattern_hit(path@, pattern@, glob_hit),
{
    if glob_hit {
        Some(PreserveHit::Glob)
    } else if str_equal(path, pattern) {
        Some(PreserveHit::Literal)
    } else {
        None
    }
}

/// The first preserve pattern that protects `path`, with how it does:
/// `glob_hits[i]` tells whether the glob expansion of `patterns[i]` names the
/// path.  `None` exactly when no pattern protects it.
pub fn preserved_by(path: &str, patterns: &Vec<String>, glob_hits: &Vec<bool>) -> (hit: Option<
    (usize, PreserveHit),
>)
    requires
        patterns.len() == glob_hits.len(),
    ensures
        hit is Some <==> preserved(path@, patterns@, glob_hits@),
        hit matches Some((i, how)) ==> {
            &&& i < patterns.len()
            &&& pattern_hit(path@, patterns@[i as int]@, glob_hits@[i as int]) == Some(how)
            &&& forall|j: int|
                0 <= j < i ==> #[trigger] pattern_hit(path@, patterns@[j]@, glob_hits@[j]) is None
        },
{
    let mut i: usize = 0;
    while i < patterns.len()
        invariant
            patterns.len() == glob_hits.len(),
            0 <= i <= patterns.len(),
            forall|j: int|
                0 <= j < i ==> #[trigger] pattern_hit(path@, patterns@[j]@, glob_hits@[j]) is None,
        decreases patterns.len() - i,
    {
        let hit = preserve_hit(path, patterns[i].as_str(), glob_hits[i]);
        if let Some(how) = hit {
            return Some((i, how));
        }
        i = i + 1;
    }
    None
}

/// Preserve patterns keep lifecycle management away from the files they
/// name: a preserved path matched by a rule is skipped, and a preserved
/// compressed sibling is not deleted, whatever its age and size.
pub proof fn law_preserved_untouched(
    rule: LifecycleRule,
    path: Seq<char>,
    patterns: Seq<String>,
    glob_hits: Seq<bool>,
    is_file: bool,
    age_days: Option<u64>,
    size_mb: Option<u64>,
)
    requires
        preserved(path, patterns, glob_hits),
    ensures
        file_plan(rule, path, is_file, preserved(path, patterns, glob_hits), age_days, size_mb)
            == FileAction::Skip,
        !compressed_deleted(rule, preserved(path, patterns, glob_hits), age_days),
{
}

/// A path is a gzip path exactly when it is some path followed by `.gz`.
pub proof fn law_gz_path_is_gz_suffix(path: Seq<char>)
    ensures
        is_gz_path(path) <==> exists|stem: Seq<char>| path == stem + ".gz"@,
{
    reveal_strlit(".gz");
    if is_gz_path(path) {
        let stem = path.subrange(0, path.len() - 3);
        assert(path =~= stem + ".gz"@);
    }
    if exists|stem: Seq<char>| path == stem + ".gz"@ {
        let stem = choose|stem: Seq<char>| path == stem + ".gz"@;
        assert(path.subrange(path.len() - 3, path.len() as int) =~= ".gz"@);
    }
}

/// Paths that are not regular files are never touched by a rule.
pub proof fn law_non_files_skipped(
    rule: LifecycleRule,
    path: Seq<char>,
    preserved: bool,
    age_days: Option<u64>,
    size_mb: Option<u64>,
)
    ensures
        file_plan(rule, path, false, preserved, age_days, size_mb) == FileAction::Skip,
{
}

/// A regular, unpreserved, uncompressed file whose known age is at least
/// `compress_after_days` is compressed, whatever its size and whatever the
/// rule's other limits: it is never deleted or truncated instead.
pub proof fn law_old_files_compressed(
    rule: LifecycleRule,
    path: Seq<char>,
    age: u64,
    size_mb: Option<u64>,
)
    requires
        rule.compress_after_days is Some,
        age >= rule.compress_after_days->0,
        !is_gz_path(path),
    ensures
        file_plan(rule, path, true, false, Some(age), size_mb) == (FileAction::Compress {
            age_days: age,
            after_days: rule.compress_after_days->0,
        }),
{
}

/// Where compression does not apply (no compression limit, unknown age,
/// age below the limit, or a gzip file), a regular unpreserved file whose
/// known age is at least `max_age_days` is deleted, whatever its size.
pub proof fn law_old_files_deleted(
    rule: LifecycleRule,
    path: Seq<char>,
    age: u64,
    size_mb: Option<u64>,
)
    requires
        rule.compress_after_days is None || age < rule.compress_after_days->0 || is_gz_path(path),
        rule.max_age_days is Some,
        age >= rule.max_age_days->0,
    ensures
        file_plan(rule, path, true, false, Some(age), size_mb) == (FileAction::Delete {
            age_days: age,
            max_days: rule.max_age_days->0,
        }),
{
}

/// Where neither compression nor deletion applies, a regular unpreserved
/// file is truncated exactly when its size is known and at least
/// `max_size_mb`, and kept otherwise.
pub proof fn law_large_files_truncated(
    rule: LifecycleRule,
    path: Seq<char>,
    age_days: Option<u64>,
    size_mb: Option<u64>,
)
    requires
        rule.compress_after_days is None || age_days is None || age_days->0
            < rule.compress_after_days->0 || is_gz_path(path),
        rule.max_age_days is None || age_days is None || age_days->0 < rule.max_age_days->0,
    ensures
        file_plan(rule, path, true, false, age_days, size_mb) == if rule.max_size_mb is Some
            && size_mb is Some && size_mb->0 >= rule.max_size_mb->0 {
            FileAction::Truncate { size_mb: size_mb->0, max_mb: rule.max_size_mb->0 }
        } else {
            FileAction::Keep
        },
{
}

/// An unpreserved compressed sibling of known age is deleted exactly when
/// that age is at least `delete_compressed_after_days`; one of unknown age,
/// or under a rule without that limit, is kept.
pub proof fn law_compressed_deleted_by_own_limit(rule: LifecycleRule, age: u64)
    ensures
        compressed_deleted(rule, false, Some(age)) <==> (rule.delete_compressed_after_days is Some
            && age >= rule.delete_compressed_after_days->0),
        !compressed_deleted(rule, false, None),
{
}

/// Only `delete_compressed_after_days` decides the deletion of compressed
/// siblings: the pattern and the other limits play no part.
pub proof fn law_compressed_ignores_other_limits(
    a: LifecycleRule,
    b: LifecycleRule,
    preserved: bool,
    age_days: Option<u64>,
)
    requires
        a.delete_compressed_after_days == b.delete_compressed_after_days,
    ensures
        compressed_deleted(a, preserved, age_days) == compressed_deleted(b, preserved, age_days),
{
}

/// A preserve pattern protects every path that its glob expansion names,
/// whatever the pattern holds, and a pattern that is the path itself
/// protects it; a pattern that neither expands to nor equals the path does
/// not.
pub proof fn law_pattern_protects(path: Seq<char>, pattern: Seq<char>, glob_hit: bool)
    ensures
        glob_hit ==> pattern_hit(path, pattern, glob_hit) == Some(PreserveHit::Glob),
        !glob_hit && path == pattern ==> pattern_hit(path, pattern, glob_hit) == Some(
            PreserveHit::Literal,
        ),
        !glob_hit && path != pattern ==> pattern_hit(path, pattern, glob_hit) is None,
{
}

/// A path is preserved exactly when some pattern of the list expands to it
/// or is the path itself.
pub proof fn law_preserved_iff_named(path: Seq<char>, patterns: Seq<String>, glob_hits: Seq<bool>)
    requires
        patterns.len() == glob_hits.len(),
    ensures
        preserved(path, patterns, glob_hits) <==> exists|i: int|
            0 <= i < patterns.len() && (#[trigger] glob_hits[i] || patterns[i]@ =~= path),
{
    assert forall|i: int| 0 <= i < patterns.len() implies (pattern_hit(
        path,
        patterns[i]@,
        glob_hits[i],
    ) is Some <==> (glob_hits[i] || patterns[i]@ =~= path)) by {
        if !glob_hits[i] && patterns[i]@ =~= path {
            assert(patterns[i]@ == path);
        }
    }
}

/// What the lifecycle scheduler does at a poll: with rules to run, a pass
/// is due when none ran yet or at least `interval_secs` seconds passed since
/// the last one started; it starts only when the previous one finished.
pub fn lifecycle_tick(
    has_rules: bool,
    secs_since_last: Option<u64>,
    interval_secs: u64,
    previous_finished: bool,
) -> (tick: LifecycleTick)
    ensures
        tick == if !has_rules {
            LifecycleTick::Idle
        } else if secs_since_last is Some && secs_since_last->0 < interval_secs {
            LifecycleTick::Idle
        } else if previous_finished {
            LifecycleTick::Start
        } else {
            LifecycleTick::Busy
        },
        tick == LifecycleTick::Start ==> has_rules && previous_finished && (secs_since_last is None
            || secs_since_last->0 >= interval_secs),
{
    if !has_rules {
        return LifecycleTick::Idle;
    }
    let due = match secs_since_last {
        Some(elapsed) => elapsed >= interval_secs,
        None => true,
    };
    if due && previous_finished {
        LifecycleTick::Start
    } else if due {
        LifecycleTick::Busy
    } else {
        LifecycleTick::Idle
    }
}

} // verus!
