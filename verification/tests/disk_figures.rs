use linux_disk_space_manager::disk::{human_bytes, FsStats};

const KIB: u64 = 1 << 10;
const MIB: u64 = 1 << 20;
const GIB: u64 = 1 << 30;

/// What the daemon's logs print, computed with floating point.
fn float_rendering(bytes: u64) -> String {
    if bytes >= GIB {
        format!("{:.1} GiB", bytes as f64 / GIB as f64)
    } else if bytes >= MIB {
        format!("{:.1} MiB", bytes as f64 / MIB as f64)
    } else if bytes >= KIB {
        format!("{:.1} KiB", bytes as f64 / KIB as f64)
    } else {
        format!("{} B", bytes)
    }
}

#[test]
fn human_bytes_plain_bytes() {
    assert_eq!(human_bytes(0), "0 B");
    assert_eq!(human_bytes(1), "1 B");
    assert_eq!(human_bytes(512), "512 B");
    assert_eq!(human_bytes(1023), "1023 B");
}

#[test]
fn human_bytes_units() {
    assert_eq!(human_bytes(1024), "1.0 KiB");
    assert_eq!(human_bytes(1536), "1.5 KiB");
    assert_eq!(human_bytes(MIB), "1.0 MiB");
    assert_eq!(human_bytes(GIB), "1.0 GiB");
    assert_eq!(human_bytes(3 * GIB + 3 * GIB / 10), "3.3 GiB");
    assert_eq!(human_bytes(1023 * MIB + 1023 * KIB), "1024.0 MiB");
}

#[test]
fn human_bytes_ties_round_to_even() {
    // 1.25 and 1.75 KiB are exact halves between tenths.
    assert_eq!(human_bytes(1280), "1.2 KiB");
    assert_eq!(human_bytes(1792), "1.8 KiB");
    assert_eq!(human_bytes(GIB + GIB / 4), "1.2 GiB");
    assert_eq!(human_bytes(2 * GIB + 3 * GIB / 4), "2.8 GiB");
}

#[test]
fn human_bytes_largest_values() {
    assert_eq!(human_bytes(u64::MAX), "17179869184.0 GiB");
    assert_eq!(human_bytes(u64::MAX), float_rendering(u64::MAX));
    assert_eq!(human_bytes((1u64 << 53) + 1), float_rendering((1u64 << 53) + 1));
}

#[test]
fn human_bytes_matches_float_rendering() {
    let mut samples: Vec<u64> = Vec::new();
    for b in 0..5000u64 {
        samples.push(b);
    }
    for k in 0..4096u64 {
        samples.push(k * 256);
        samples.push(MIB + k * 12_345);
        samples.push(GIB / 8 * k + k);
        samples.push(k * GIB + k * MIB / 4);
    }
    let mut x: u64 = 0x9E37_79B9_7F4A_7C15;
    for _ in 0..20000 {
        x ^= x << 13;
        x ^= x >> 7;
        x ^= x << 17;
        samples.push(x);
        samples.push(x >> (x % 64));
    }
    for shift in 50..64u32 {
        let base = 1u64 << shift;
        for d in 0..64u64 {
            samples.push(base + d);
            samples.push(base.wrapping_sub(d));
            samples.push(base + (base >> 3) + d * (1 << 9));
        }
    }
    for b in samples {
        assert_eq!(human_bytes(b), float_rendering(b), "bytes = {}", b);
    }
}

fn stats(blocks: u64, free: u64, avail: u64, files: u64, ffree: u64, favail: u64) -> FsStats {
    FsStats {
        fragment_size: 4096,
        blocks,
        blocks_free: free,
        blocks_available: avail,
        files,
        files_free: ffree,
        files_available: favail,
    }
}

#[test]
fn usage_counts_blocks_by_default() {
    // 400 of 1000 blocks used (reserved 50), 10 of 1000 inodes used.
    let s = stats(1000, 600, 550, 1000, 990, 990);
    assert_eq!(s.usage(), (400, 950));
    assert_eq!(s.byte_totals(), (400 * 4096, 950 * 4096));
}

#[test]
fn usage_switches_to_fuller_inodes() {
    // Blocks 40% used, inodes 90% used.
    let s = stats(1000, 600, 600, 100, 10, 10);
    assert_eq!(s.usage(), (90, 100));
    assert_eq!(s.byte_totals(), (90 * 4096, 100 * 4096));
}

#[test]
fn usage_compares_shares_not_counts() {
    // More inodes in use (500 of 100000) than blocks (300 of 400), but a
    // smaller share of them: blocks stay the measure.
    let s = stats(400, 100, 100, 100_000, 99_500, 99_500);
    assert_eq!(s.usage(), (300, 400));
}

#[test]
fn usage_equal_shares_keep_blocks() {
    let s = stats(100, 50, 50, 10, 5, 5);
    assert_eq!(s.usage(), (50, 100));
}

#[test]
fn usage_of_empty_filesystem() {
    let s = stats(0, 0, 0, 0, 0, 0);
    assert_eq!(s.usage(), (0, 0));
    assert_eq!(s.byte_totals(), (0, 0));
    // No block capacity, but inodes in use: inodes are the fuller share.
    let t = stats(0, 0, 0, 10, 5, 5);
    assert_eq!(t.usage(), (5, 10));
}

#[test]
fn usage_saturates_when_free_exceeds_total() {
    let s = stats(10, 20, 5, 0, 0, 0);
    assert_eq!(s.usage(), (0, 5));
}
