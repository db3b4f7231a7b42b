//! The sampling side of the pipeline: timing one work unit run and handing
//! the sample to the bounded queue.
//!
//! The queue is crossbeam's bounded channel; the random inputs come from
//! rand's thread-local generator; timestamps come from the monotonic clock.
//! Each sits behind a trusted wrapper, and everything around the calls is
//! verified. The unbounded sampler loop itself is driven by the host
//! process: one call of `worker_iteration` is one loop body.

use vstd::prelude::*;
use crate::workunits::{
    WorkUnitKind, array_sort, fibonacci, game_of_life, is_leap_year, matrix_multiplication,
    prime_factors, wf_grid, rect, entries_in,
};
use rand::RngExt;

verus! {

/// One timing sample: the work unit's name and the measured duration in
/// whole nanoseconds.
#[derive(Clone, Copy, Debug)]
pub struct Sample {
    pub name: &'static str,
    pub duration_nanos: u64,
}

impl View for Sample {
    type V = (Seq<char>, u64);

    open spec fn view(&self) -> (Seq<char>, u64) {
        (self.name@, self.duration_nanos)
    }
}

#[verifier::external_type_specification]
#[verifier::external_body]
pub struct ExThreadRng(rand::rngs::ThreadRng);

#[verifier::external_type_specification]
#[verifier::external_body]
#[verifier::reject_recursive_types(T)]
pub struct ExSender<T>(crossbeam::channel::Sender<T>);

#[verifier::external_type_specification]
#[verifier::external_body]
pub struct ExInstant(std::time::Instant);

/// Relies on `rand::RngExt::random_range` over `lo..=hi`: a value within the
/// given inclusive range; the range must be nonempty or the call panics.
#[verifier::external_body]
fn random_in_range(rng: &mut rand::rngs::ThreadRng, lo: u64, hi: u64) -> (r: u64)
    requires
        lo <= hi,
    ensures
        lo <= r <= hi,
{
    rng.random_range(lo..=hi)
}

/// Relies on `std::time::Instant::now`: an opaque monotonic timestamp.
#[verifier::external_body]
fn monotonic_now() -> std::time::Instant {
    std::time::Instant::now()
}

/// Relies on `std::time::Instant::elapsed`: the time since the timestamp,
/// never negative.
#[verifier::external_body]
fn elapsed_since(start: &std::time::Instant) -> core::time::Duration {
    start.elapsed()
}

/// Relies on `core::time::Duration::as_nanos`: the whole duration in
/// nanoseconds.
#[verifier::external_body]
fn duration_nanos(d: &core::time::Duration) -> u128 {
    d.as_nanos()
}

/// Relies on `crossbeam_channel::Sender::send`: blocks while the queue is
/// full rather than dropping; an error means every receiver is gone, and it
/// hands the very sample back.
#[verifier::external_body]
fn send_sample(tx: &crossbeam::channel::Sender<Sample>, s: Sample) -> (r: Result<(), Sample>)
    ensures
        r is Err ==> r->Err_0 == s,
{
    match tx.send(s) {
        Ok(()) => Ok(()),
        Err(e) => Err(e.0),
    }
}

/// A random toroidal grid of 0/1 cells.
fn random_grid(rng: &mut rand::rngs::ThreadRng, w: usize, h: usize) -> (g: Vec<Vec<u8>>)
    requires
        w >= 1,
        h >= 1,
    ensures
        wf_grid(g.deep_view(), w as int, h as int),
{
    let mut g: Vec<Vec<u8>> = Vec::new();
    let mut x: usize = 0;
    while x < w
        invariant
            x <= w,
            g@.len() == x,
            forall|r: int| 0 <= r < x ==> (#[trigger] g@[r])@.len() == h,
            forall|r: int, c: int| 0 <= r < x && 0 <= c < h ==> #[trigger] g@[r]@[c] <= 1,
        decreases w - x,
    {
        let mut row: Vec<u8> = Vec::new();
        let mut y: usize = 0;
        while y < h
            invariant
                y <= h,
                row@.len() == y,
                forall|c: int| 0 <= c < y ==> #[trigger] row@[c] <= 1,
            decreases h - y,
        {
            let cell = random_in_range(rng, 0, 1) as u8;
            row.push(cell);
            y = y + 1;
        }
        g.push(row);
        x = x + 1;
    }
    proof {
        assert forall|r: int| 0 <= r < w implies (#[trigger] g.deep_view()[r]).len() == h by {
            assert(g.deep_view()[r] =~= g@[r]@);
        }
        assert forall|r: int, c: int| 0 <= r < w && 0 <= c < h implies #[trigger] g.deep_view()[r][c]
            <= 1 by {
            assert(g.deep_view()[r] =~= g@[r]@);
        }
    }
    g
}

/// A random square matrix with entries in `[0, 9]`.
fn random_matrix(rng: &mut rand::rngs::ThreadRng, d: usize) -> (m: Vec<Vec<i32>>)
    ensures
        m.deep_view().len() == d,
        rect(m.deep_view(), d as int),
        entries_in(m.deep_view(), 0, 9),
{
    let mut m: Vec<Vec<i32>> = Vec::new();
    let mut i: usize = 0;
    while i < d
        invariant
            i <= d,
            m@.len() == i,
            forall|r: int| 0 <= r < i ==> (#[trigger] m@[r])@.len() == d,
            forall|r: int, c: int| 0 <= r < i && 0 <= c < d ==> 0 <= #[trigger] m@[r]@[c] <= 9,
        decreases d - i,
    {
        let mut row: Vec<i32> = Vec::new();
        let mut j: usize = 0;
        while j < d
            invariant
                j <= d,
                row@.len() == j,
                forall|c: int| 0 <= c < j ==> 0 <= #[trigger] row@[c] <= 9,
            decreases d - j,
        {
            let e = random_in_range(rng, 0, 9) as i32;
            row.push(e);
            j = j + 1;
        }
        m.push(row);
        i = i + 1;
    }
    proof {
        assert forall|r: int| 0 <= r < d implies (#[trigger] m.deep_view()[r]).len() == d by {
            assert(m.deep_view()[r] =~= m@[r]@);
        }
        assert forall|r: int, c: int| 0 <= r < d && 0 <= c < d implies 0 <= #[trigger] m.deep_view()[r][c] <= 9 by {
            assert(m.deep_view()[r] =~= m@[r]@);
        }
    }
    m
}

/// Run one invocation of the given work unit on freshly drawn random
/// inputs, discarding the result — only the elapsed time is observable.
pub fn run_work_unit(kind: WorkUnitKind, rng: &mut rand::rngs::ThreadRng) {
    match kind {
        WorkUnitKind::ArraySort => {
            let mut a: Vec<i32> = Vec::new();
            let mut i: usize = 0;
            while i < 40
                invariant
                    i <= 40,
                decreases 40 - i,
            {
                let e = random_in_range(rng, 0, 99) as i32;
                a.push(e);
                i = i + 1;
            }
            array_sort(&mut a);
        },
        WorkUnitKind::Fibonacci => {
            let k = random_in_range(rng, 20, 35);
            let _ = fibonacci(k);
        },
        WorkUnitKind::GameOfLife => {
            let g = random_grid(rng, 35, 35);
            let _ = game_of_life(g, 35, 35, 5);
        },
        WorkUnitKind::MatrixMultiplication => {
            let a = random_matrix(rng, 50);
            let b = random_matrix(rng, 50);
            let _ = matrix_multiplication(&a, &b);
        },
        WorkUnitKind::PrimeFactors => {
            let n = random_in_range(rng, 100_000, 500_000);
            let _ = prime_factors(n);
        },
        WorkUnitKind::IsLeapYear => {
            let y = random_in_range(rng, 1, 9999);
            let _ = is_leap_year(y);
        },
    }
}

/// Time one run of the work unit and build its sample: the name is the work
/// unit's, the duration is whatever the clock measured (saturating at
/// `u64::MAX` nanoseconds).
pub fn sample_work_unit(kind: WorkUnitKind, rng: &mut rand::rngs::ThreadRng) -> (s: Sample)
    ensures
        s@.0 == kind.spec_name(),
{
    let start = monotonic_now();
    run_work_unit(kind, rng);
    let d = elapsed_since(&start);
    let n = duration_nanos(&d);
    let nanos: u64 = if n > u64::MAX as u128 {
        u64::MAX
    } else {
        n as u64
    };
    Sample { name: kind.name(), duration_nanos: nanos }
}

/// One body of a sampler's unbounded loop: measure one run and hand the
/// sample to the queue, blocking while the queue is full. Returns `false`
/// exactly when the queue refused the sample — every receiver is gone, the
/// only condition under which a sampler stops.
pub fn worker_iteration(kind: WorkUnitKind, rng: &mut rand::rngs::ThreadRng, tx: &crossbeam::channel::Sender<Sample>) -> (keep_going: bool) {
    let s = sample_work_unit(kind, rng);
    match send_sample(tx, s) {
        Ok(()) => true,
        Err(_) => false,
    }
}

} // verus!
