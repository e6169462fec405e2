//! How many workers a transfer gets when the user leaves it open.
use vstd::prelude::*;

verus! {

/// Above this mean size in bytes, files count as large.
pub const LARGE_FILE: u64 = 10 * 1024 * 1024;

/// The most workers that are ever chosen.
pub const MOST_WORKERS: usize = 32;

/// Whether `w` is the square root of `n`, rounded up.
pub open spec fn is_root_up(w: nat, n: nat) -> bool {
    w * w >= n && (w > 0 ==> (w - 1) * (w - 1) < n)
}

/// The square root of `n`, rounded up.
pub open spec fn root_up(n: nat) -> nat {
    choose|w: nat| is_root_up(w, n)
}

/// The number of workers for `files` files with `bytes` bytes in all, where
/// `root` is the square root of the number of files, rounded up: the root,
/// but no more than four for large files, and between one and the most. More
/// than fifty thousand files always get the most.
pub open spec fn workers_for(root: nat, files: nat, bytes: nat) -> nat {
    let large = files > 0 && bytes / files > LARGE_FILE;
    let w: nat = if large && root > 4 { 4 } else { root };
    if files == 0 {
        1
    } else if files > 50000 {
        MOST_WORKERS as nat
    } else if w < 1 {
        1
    } else if w > MOST_WORKERS {
        MOST_WORKERS as nat
    } else {
        w
    }
}

/// Chooses the number of workers from the number of files and their size.
pub fn choose_auto_concurrency(total_files: usize, total_bytes: u64) -> (r: usize)
    ensures
        1 <= r <= MOST_WORKERS,
        r == workers_for(root_up(total_files as nat), total_files as nat, total_bytes as nat),
{
    if total_files == 0 {
        return 1;
    }
    if total_files > 50000 {
        return MOST_WORKERS;
    }
    let mut root: usize = 1;
    let mut square: usize = 1;
    while square < total_files
        invariant
            1 <= root <= square,
            square == root * root,
            square < 200000,
            0 < total_files <= 50000,
            (root - 1) * (root - 1) < total_files,
        decreases 200000 - square,
    {
        proof {
            assert((root + 1) * (root + 1) == root * root + 2 * root + 1) by (nonlinear_arith);
            assert(root + 1 <= (root + 1) * (root + 1)) by (nonlinear_arith);
        }
        square = square + 2 * root + 1;
        root = root + 1;
    }
    proof {
        root_is_unique(root as nat, total_files as nat);
    }
    let mut workers = root;
    if total_bytes > 0 {
        let avg: u64 = total_bytes / (total_files as u64);
        if avg > LARGE_FILE && workers > 4 {
            workers = 4;
        }
    }
    if workers > MOST_WORKERS {
        MOST_WORKERS
    } else {
        workers
    }
}

/// There is only one root that is rounded up.
pub proof fn root_is_unique(w: nat, n: nat)
    requires
        is_root_up(w, n),
    ensures
        root_up(n) == w,
{
    let r = root_up(n);
    assert(is_root_up(r, n));
    if w < r {
        assert(w * w <= (r - 1) * (r - 1)) by (nonlinear_arith)
            requires
                0 <= w <= r - 1,
        ;
    }
    if r < w {
        assert(r * r <= (w - 1) * (w - 1)) by (nonlinear_arith)
            requires
                0 <= r <= w - 1,
        ;
    }
}

/// Every number has a root that is rounded up.
pub proof fn every_number_has_a_root(n: nat) -> (w: nat)
    ensures
        is_root_up(w, n),
        root_up(n) == w,
    decreases n,
{
    let w: nat = if n == 0 {
        0
    } else {
        let v = every_number_has_a_root((n - 1) as nat);
        assert((v + 1) * (v + 1) == v * v + 2 * v + 1) by (nonlinear_arith);
        if v * v >= n {
            v
        } else {
            v + 1
        }
    };
    assert(is_root_up(w, n));
    root_is_unique(w, n);
    w
}

/// The number of workers grows with the root of the number of files: a transfer
/// of more than `(k - 1)²` and up to `k²` files gets `k` workers, but no more
/// than four where the files are large on average, nor than thirty-two. One
/// without files gets one, and one of more than fifty thousand files gets
/// thirty-two.
pub proof fn workers_grow_with_the_root(k: nat, files: nat, bytes: nat)
    requires
        k > 0,
        (k - 1) * (k - 1) < files <= k * k,
    ensures
        ({
            let w = workers_for(root_up(files), files, bytes);
            let large = bytes / files > 10 * 1024 * 1024;
            &&& files > 50000 ==> w == 32
            &&& files <= 50000 && large ==> w == if k < 4 {
                k
            } else {
                4
            }
            &&& files <= 50000 && !large ==> w == if k < 32 {
                k
            } else {
                32
            }
        }),
        workers_for(root_up(0), 0, bytes) == 1,
{
    assert((k - 1) as nat * (k - 1) as nat == (k - 1) * (k - 1));
    root_is_unique(k, files);
}

/// Large files never get more than four workers, up to fifty thousand files.
pub proof fn large_files_get_few_workers(root: nat, files: nat, bytes: nat)
    requires
        0 < files <= 50000,
        bytes / files > LARGE_FILE,
    ensures
        workers_for(root, files, bytes) <= 4,
{
}

} // verus!
