use vstd::prelude::*;

use vstd::arithmetic::power2::{lemma2_to64, pow2};

use crate::text::{decimal, digit_char, push_decimal, push_digit};

verus! {

// ---------------------------------------------------------------------
// Filesystem figures
// ---------------------------------------------------------------------

/// The figures that `statvfs` reports for a filesystem.
#[derive(Clone, Copy, Debug, PartialEq, Eq, Structural)]
pub struct FsStats {
    /// Size of a fragment (the unit of the block counts), in bytes.
    pub fragment_size: u64,
    /// Total number of blocks.
    pub blocks: u64,
    /// Free blocks.
    pub blocks_free: u64,
    /// Blocks available to unprivileged users.
    pub blocks_available: u64,
    /// Total number of inodes.
    pub files: u64,
    /// Free inodes.
    pub files_free: u64,
    /// Inodes available to unprivileged users.
    pub files_available: u64,
}

/// `a - b`, or 0 where `b` is larger.
pub open spec fn saturating_diff(a: u64, b: u64) -> nat {
    if a >= b {
        (a - b) as nat
    } else {
        0
    }
}

impl FsStats {
    /// Blocks in use.
    pub open spec fn block_used(self) -> nat {
        saturating_diff(self.blocks, self.blocks_free)
    }

    /// Blocks in use plus blocks available: what a user can fill.
    pub open spec fn block_capacity(self) -> nat {
        self.block_used() + self.blocks_available as nat
    }

    /// Inodes in use.
    pub open spec fn inode_used(self) -> nat {
        saturating_diff(self.files, self.files_free)
    }

    /// Inodes in use plus inodes available.
    pub open spec fn inode_capacity(self) -> nat {
        self.inode_used() + self.files_available as nat
    }

    /// The share of inodes in use is strictly higher than the share of
    /// blocks in use; a share over a capacity of zero counts as zero.
    pub open spec fn inodes_fuller(self) -> bool {
        if self.inode_capacity() == 0 {
            false
        } else if self.block_capacity() == 0 {
            self.inode_used() > 0
        } else {
            self.inode_used() * self.block_capacity() > self.block_used() * self.inode_capacity()
        }
    }

    /// The figures that usage is measured by: blocks by default, inodes
    /// where their share in use is higher.  The pair is (used, capacity).
    pub open spec fn usage_spec(self) -> (nat, nat) {
        if self.inodes_fuller() {
            (self.inode_used(), self.inode_capacity())
        } else {
            (self.block_used(), self.block_capacity())
        }
    }

    /// Both capacities fit in 64 bits.
    pub open spec fn capacities_fit(self) -> bool {
        self.block_capacity() <= u64::MAX && self.inode_capacity() <= u64::MAX
    }

    /// The used and capacity figures, scaled by the fragment size, fit in
    /// 64 bits.
    pub open spec fn byte_totals_fit(self) -> bool {
        &&& self.capacities_fit()
        &&& self.usage_spec().0 * self.fragment_size <= u64::MAX
        &&& self.usage_spec().1 * self.fragment_size <= u64::MAX
    }

    /// The figures usage is measured by, as (used, capacity): blocks, or
    /// inodes where a larger share of them is in use.
    pub fn usage(&self) -> (r: (u64, u64))
        requires
            self.capacities_fit(),
        ensures
            r.0 == self.usage_spec().0,
            r.1 == self.usage_spec().1,
    {
        let used = self.blocks.saturating_sub(self.blocks_free);
        let capacity = used + self.blocks_available;
        let iused = self.files.saturating_sub(self.files_free);
        let icapacity = iused + self.files_available;
        let inodes_fuller = if icapacity == 0 {
            false
        } else if capacity == 0 {
            iused > 0
        } else {
            assert((iused as u128) * (capacity as u128) <= u128::MAX) by (nonlinear_arith)
                requires
                    iused <= u64::MAX,
                    capacity <= u64::MAX,
            ;
            assert((used as u128) * (icapacity as u128) <= u128::MAX) by (nonlinear_arith)
                requires
                    used <= u64::MAX,
                    icapacity <= u64::MAX,
            ;
            let lhs: u128 = (iused as u128) * (capacity as u128);
            let rhs: u128 = (used as u128) * (icapacity as u128);
            lhs > rhs
        };
        if inodes_fuller {
            (iused, icapacity)
        } else {
            (used, capacity)
        }
    }

    /// The usage figures scaled by the fragment size, as (used, capacity).
    /// Where inodes are the measure, inode counts are scaled by the fragment
    /// size too.
    pub fn byte_totals(&self) -> (r: (u64, u64))
        requires
            self.byte_totals_fit(),
        ensures
            r.0 == self.usage_spec().0 * self.fragment_size,
            r.1 == self.usage_spec().1 * self.fragment_size,
    {
        let (used, capacity) = self.usage();
        (used * self.fragment_size, capacity * self.fragment_size)
    }
}

/// The share `used / capacity` is at least the share `other_used /
/// other_capacity`; a share over a capacity of zero counts as zero.
pub open spec fn share_at_least(used: nat, capacity: nat, other_used: nat, other_capacity: nat) -> bool {
    other_capacity == 0 || other_used == 0 || (capacity > 0 && used * other_capacity
        >= other_used * capacity)
}

/// Usage is measured by whichever of blocks and inodes has the larger share
/// in use, so that a threshold is crossed when either share crosses it.
pub proof fn law_usage_is_fuller_share(s: FsStats)
    ensures
        share_at_least(s.usage_spec().0, s.usage_spec().1, s.block_used(), s.block_capacity()),
        share_at_least(s.usage_spec().0, s.usage_spec().1, s.inode_used(), s.inode_capacity()),
{
    if s.inodes_fuller() && s.block_capacity() > 0 && s.block_used() > 0 {
        assert(s.inode_used() * s.block_capacity() >= s.block_used() * s.inode_capacity());
    }
}

/// Usage is measured either by blocks or by inodes, by blocks unless the
/// inode share is strictly larger (so blocks on a tie).
pub proof fn law_usage_blocks_or_inodes(s: FsStats)
    ensures
        s.usage_spec() == (s.block_used(), s.block_capacity()) || s.usage_spec() == (
            s.inode_used(),
            s.inode_capacity(),
        ),
        s.inode_capacity() == 0 ==> s.usage_spec() == (s.block_used(), s.block_capacity()),
        s.block_capacity() > 0 && s.inode_capacity() > 0 && s.inode_used() * s.block_capacity()
            == s.block_used() * s.inode_capacity() ==> s.usage_spec() == (
            s.block_used(),
            s.block_capacity(),
        ),
        s.block_capacity() > 0 && s.inode_capacity() > 0 && s.inode_used() * s.block_capacity()
            > s.block_used() * s.inode_capacity() ==> s.usage_spec() == (
            s.inode_used(),
            s.inode_capacity(),
        ),
{
}

// ---------------------------------------------------------------------
// Human-readable sizes
// ---------------------------------------------------------------------

/// The quotient `a / d` rounded to the nearest integer, ties to even.
pub open spec fn half_even_quotient(a: nat, d: nat) -> nat {
    let q = a / d;
    let r = a % d;
    if 2 * r > d || (2 * r == d && q % 2 == 1) {
        q + 1
    } else {
        q
    }
}

/// How many low bits of `n` a 53-bit significand cannot hold.
pub open spec fn dropped_bits(n: nat) -> nat
    decreases n,
{
    if n < 0x20_0000_0000_0000 {
        0
    } else {
        1 + dropped_bits(n / 2)
    }
}

/// The value of the double-precision number nearest to `n` (ties to an
/// even significand), which is what `n as f64` holds.
pub open spec fn nearest_double(n: nat) -> nat {
    half_even_quotient(n, pow2(dropped_bits(n))) * pow2(dropped_bits(n))
}

/// `bytes` in units of `2^unit_log2` bytes, in tenths, rounded as a
/// one-decimal rendering of the double-precision quotient rounds: to the
/// nearest tenth, ties to even.
pub open spec fn tenths_of_unit(bytes: nat, unit_log2: nat) -> nat {
    half_even_quotient(nearest_double(bytes) * 10, pow2(unit_log2))
}

/// A count of tenths written with one decimal, such as `12.5`.
pub open spec fn one_decimal(tenths: nat) -> Seq<char> {
    decimal(tenths / 10) + "."@ + seq![digit_char(tenths % 10)]
}

/// The text of `human_bytes`: GiB, MiB or KiB with one decimal for sizes of
/// at least one such unit, plain bytes below one KiB.
pub open spec fn human_bytes_text(bytes: u64) -> Seq<char> {
    if bytes >= pow2(30) {
        one_decimal(tenths_of_unit(bytes as nat, 30)) + " GiB"@
    } else if bytes >= pow2(20) {
        one_decimal(tenths_of_unit(bytes as nat, 20)) + " MiB"@
    } else if bytes >= pow2(10) {
        one_decimal(tenths_of_unit(bytes as nat, 10)) + " KiB"@
    } else {
        decimal(bytes as nat) + " B"@
    }
}

/// The distance between two integers.
pub open spec fn distance(x: int, y: int) -> int {
    if x >= y {
        x - y
    } else {
        y - x
    }
}

/// Rounding half to even gives a nearest multiple: `q * d` is within half of
/// `d` of `a`, and on an exact tie `q` is even.
pub proof fn law_half_even_is_nearest(a: nat, d: nat)
    requires
        d > 0,
    ensures
        2 * distance((half_even_quotient(a, d) * d) as int, a as int) <= d,
        2 * distance((half_even_quotient(a, d) * d) as int, a as int) == d ==> half_even_quotient(a, d)
            % 2 == 0,
{
    let q0 = a / d;
    let r = a % d;
    vstd::arithmetic::div_mod::lemma_fundamental_div_mod(a as int, d as int);
    assert((q0 + 1) * d == q0 * d + d) by (nonlinear_arith);
    assert(0 <= r < d);
}

/// A count below 2^53 converts to a double exactly.
pub proof fn law_small_counts_exact(n: nat)
    requires
        n < 0x20_0000_0000_0000,
    ensures
        nearest_double(n) == n,
{
    assert(dropped_bits(n) == 0);
    assert(pow2(0) == 1) by {
        lemma2_to64();
    }
    assert(n / 1 == n && n % 1 == 0);
    assert(half_even_quotient(n, 1) == n);
    assert(nearest_double(n) == half_even_quotient(n, 1) * 1);
}

/// The converted count is within half a step of the double format at its
/// magnitude of the count itself, and on a tie the kept significand is even.
pub proof fn law_nearest_double_is_close(n: nat)
    ensures
        2 * distance(nearest_double(n) as int, n as int) <= pow2(dropped_bits(n)),
        2 * distance(nearest_double(n) as int, n as int) == pow2(dropped_bits(n)) ==> (
        nearest_double(n) / pow2(dropped_bits(n))) % 2 == 0,
{
    let d = pow2(dropped_bits(n));
    vstd::arithmetic::power2::lemma_pow2_pos(dropped_bits(n));
    law_half_even_is_nearest(n, d);
    let q = half_even_quotient(n, d);
    vstd::arithmetic::div_mod::lemma_div_multiples_vanish(q as int, d as int);
    assert((q * d) / d == q);
}

/// `human_bytes` picks the largest unit of which there is at least one and
/// shows the converted size in it rounded to the nearest tenth (ties to an
/// even tenth); below one KiB it shows the exact count of bytes.
pub proof fn law_human_bytes_rounds(b: u64)
    ensures
        b < 1024 ==> human_bytes_text(b) == decimal(b as nat) + " B"@,
        1024 <= b < 0x10_0000 ==> exists|t: nat|
            #![trigger one_decimal(t)]
            human_bytes_text(b) == one_decimal(t) + " KiB"@ && 2 * distance(
                (t * 1024) as int,
                (10 * nearest_double(b as nat)) as int,
            ) <= 1024 && (2 * distance(
                (t * 1024) as int,
                (10 * nearest_double(b as nat)) as int,
            ) == 1024 ==> t % 2 == 0),
        0x10_0000 <= b < 0x4000_0000 ==> exists|t: nat|
            #![trigger one_decimal(t)]
            human_bytes_text(b) == one_decimal(t) + " MiB"@ && 2 * distance(
                (t * 0x10_0000) as int,
                (10 * nearest_double(b as nat)) as int,
            ) <= 0x10_0000 && (2 * distance(
                (t * 0x10_0000) as int,
                (10 * nearest_double(b as nat)) as int,
            ) == 0x10_0000 ==> t % 2 == 0),
        0x4000_0000 <= b ==> exists|t: nat|
            #![trigger one_decimal(t)]
            human_bytes_text(b) == one_decimal(t) + " GiB"@ && 2 * distance(
                (t * 0x4000_0000) as int,
                (10 * nearest_double(b as nat)) as int,
            ) <= 0x4000_0000 && (2 * distance(
                (t * 0x4000_0000) as int,
                (10 * nearest_double(b as nat)) as int,
            ) == 0x4000_0000 ==> t % 2 == 0),
{
    lemma2_to64();
    let v = 10 * nearest_double(b as nat);
    law_half_even_is_nearest(v, pow2(10));
    law_half_even_is_nearest(v, pow2(20));
    law_half_even_is_nearest(v, pow2(30));
    let t10 = tenths_of_unit(b as nat, 10);
    let t20 = tenths_of_unit(b as nat, 20);
    let t30 = tenths_of_unit(b as nat, 30);
    assert(one_decimal(t10) == one_decimal(t10));
    assert(one_decimal(t20) == one_decimal(t20));
    assert(one_decimal(t30) == one_decimal(t30));
}

fn half_even_div(a: u128, d: u128) -> (q: u128)
    requires
        0 < d <= 0x1_0000_0000_0000_0000,
        a < 0x1_0000_0000_0000_0000_0000,
    ensures
        q == half_even_quotient(a as nat, d as nat),
        q <= a / d + 1,
{
    let q = a / d;
    let r = a % d;
    assert(r < d);
    if 2 * r > d || (2 * r == d && q % 2 == 1) {
        q + 1
    } else {
        q
    }
}

/// Two to the power of the number of dropped bits of `n`.
fn dropped_bits_scale(n: u64) -> (d: u64)
    ensures
        d == pow2(dropped_bits(n as nat)),
        d == 1 || d * 0x10_0000_0000_0000 <= n,
        d >= 1,
    decreases n,
{
    if n < 0x20_0000_0000_0000 {
        proof {
            lemma2_to64();
        }
        1
    } else {
        let d = dropped_bits_scale(n / 2);
        proof {
            vstd::arithmetic::power2::lemma_pow2_unfold(dropped_bits(n as nat));
        }
        d * 2
    }
}

fn push_one_decimal(s: &mut String, tenths: u128)
    requires
        tenths / 10 <= u64::MAX,
    ensures
        final(s)@ == old(s)@ + one_decimal(tenths as nat),
{
    push_decimal(s, (tenths / 10) as u64);
    proof {
        reveal_strlit(".");
    }
    s.append(".");
    push_digit(s, (tenths % 10) as u64);
    assert(s@ =~= old(s)@ + one_decimal(tenths as nat));
}

/// Renders a byte count as the daemon's logs show it: `3.3 GiB`,
/// `159.8 MiB`, `2.0 KiB` or `512 B`.
pub fn human_bytes(bytes: u64) -> (text: String)
    ensures
        text@ == human_bytes_text(bytes),
{
    proof {
        lemma2_to64();
    }
    let mut text = String::new();
    if bytes < 1024 {
        push_decimal(&mut text, bytes);
        proof {
            reveal_strlit(" B");
        }
        text.append(" B");
        return text;
    }
    let (unit, suffix): (u128, &str) = if bytes >= 0x4000_0000 {
        (0x4000_0000, " GiB")
    } else if bytes >= 0x10_0000 {
        (0x10_0000, " MiB")
    } else {
        (0x400, " KiB")
    };
    let d = dropped_bits_scale(bytes);
    let m = half_even_div(bytes as u128, d as u128);
    assert((bytes as u128 / d as u128) * (d as u128) <= bytes) by (nonlinear_arith)
        requires
            d > 0,
    ;
    assert(m * d <= bytes as u128 + d) by (nonlinear_arith)
        requires
            m <= (bytes as u128 / d as u128) + 1,
            (bytes as u128 / d as u128) * (d as u128) <= bytes,
    ;
    let value: u128 = m * (d as u128);
    let tenths = half_even_div(value * 10, unit);
    assert(tenths / 10 <= u64::MAX) by (nonlinear_arith)
        requires
            tenths <= (value * 10) as int / unit as int + 1,
            unit >= 1024,
            value <= 0x1_0000_0000_0000_1000,
    ;
    push_one_decimal(&mut text, tenths);
    proof {
        reveal_strlit(" GiB");
        reveal_strlit(" MiB");
        reveal_strlit(" KiB");
    }
    text.append(suffix);
    text
}

} // verus!
