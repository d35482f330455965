//! Port-order strategies: a stored list, a serial range, or a random
//! full-cover permutation of a range.

use vstd::prelude::*;
use vstd::arithmetic::div_mod::{lemma_fundamental_div_mod, lemma_small_mod};
use vstd::set_lib::{lemma_int_range, lemma_subset_equality, set_int_range};
use crate::input::{arwah_clone_ports, ArwahPortRange, ArwahScanOrder};

verus! {

/// Greatest common divisor, by Euclid's rule.
pub open spec fn spec_gcd(a: nat, b: nat) -> nat
    decreases b,
{
    if b == 0 {
        a
    } else {
        spec_gcd(b, a % b)
    }
}

/// Euclid's algorithm on machine words.
pub fn arwah_gcd(a: u32, b: u32) -> (r: u32)
    ensures
        r == spec_gcd(a as nat, b as nat),
    decreases b,
{
    if b == 0 {
        a
    } else {
        arwah_gcd(b, a % b)
    }
}

/// `d` divides `n`.
pub open spec fn spec_divides(d: nat, n: int) -> bool {
    exists|k: int| n == #[trigger] (k * d)
}

/// Bezout coefficients: the greatest common divisor is an integer
/// combination of its arguments.
proof fn lemma_bezout(a: nat, b: nat) -> (r: (int, int))
    ensures
        r.0 * a + r.1 * b == spec_gcd(a, b),
    decreases b,
{
    if b == 0 {
        (1int, 0int)
    } else {
        let q = a as int / b as int;
        let m = a as int % b as int;
        lemma_fundamental_div_mod(a as int, b as int);
        assert(a == q * b + m);
        assert(m == a % b);
        let (x, y) = lemma_bezout(b, (a % b) as nat);
        assert(x * b + y * m == spec_gcd(b, a % b));
        assert(y * (a as int) + (x - y * q) * (b as int) == x * (b as int) + y * m)
            by (nonlinear_arith)
            requires
                a as int == q * (b as int) + m,
        ;
        (y, x - y * q)
    }
}

/// When `n` and `s` are coprime and `n` divides `d * s`, `n` divides `d`.
proof fn lemma_coprime_divides(n: nat, s: nat, d: int)
    requires
        n > 0,
        spec_gcd(n, s) == 1,
        spec_divides(n, d * s),
    ensures
        spec_divides(n, d),
{
    let (x, y) = lemma_bezout(n, s);
    let k = choose|k: int| d * (s as int) == #[trigger] (k * n);
    assert(d == (d * x + y * k) * (n as int)) by (nonlinear_arith)
        requires
            x * n + y * s == 1,
            d * (s as int) == k * n,
    ;
}

/// Two equal residues differ by a multiple of the modulus.
proof fn lemma_mod_eq_divides(n: nat, a: int, b: int)
    requires
        n > 0,
        a % (n as int) == b % (n as int),
    ensures
        spec_divides(n, a - b),
{
    lemma_fundamental_div_mod(a, n as int);
    lemma_fundamental_div_mod(b, n as int);
    let qa = a / (n as int);
    let qb = b / (n as int);
    assert(a - b == (qa - qb) * n) by (nonlinear_arith)
        requires
            a == (n as int) * qa + a % (n as int),
            b == (n as int) * qb + b % (n as int),
            a % (n as int) == b % (n as int),
    ;
}

/// Stepping by an amount coprime to the modulus never revisits a residue
/// within one lap.
proof fn lemma_step_injective(n: nat, s: nat, i0: nat, k1: int, k2: int)
    requires
        n > 0,
        spec_gcd(n, s) == 1,
        0 <= k1 < k2 <= n,
        k2 - k1 < n,
    ensures
        (i0 + k1 * s) % (n as int) != (i0 + k2 * s) % (n as int),
{
    if (i0 + k1 * s) % (n as int) == (i0 + k2 * s) % (n as int) {
        lemma_mod_eq_divides(n, i0 + k2 * s, i0 + k1 * s);
        assert((i0 + k2 * s) - (i0 + k1 * s) == (k2 - k1) * s) by (nonlinear_arith);
        assert(spec_divides(n, (k2 - k1) * s));
        lemma_coprime_divides(n, s, k2 - k1);
        let k = choose|k: int| k2 - k1 == #[trigger] (k * n);
        assert(0 < k * n < n);
        assert(false) by (nonlinear_arith)
            requires
                0 < k * n < n,
                n > 0,
    ;
    }
}

/// After exactly one full lap the walk is back at its first residue.
proof fn lemma_cycle_closes(n: nat, s: nat, i0: nat, c: int)
    requires
        n > 0,
        spec_gcd(n, s) == 1,
        i0 < n,
        1 <= c <= n,
    ensures
        ((i0 + c * s) % (n as int) == i0) <==> (c == n),
{
    lemma_small_mod(i0, n);
    if c == n {
        let ni = n as int;
        let i0i = i0 as int;
        let si = s as int;
        assert((i0i + ni * si) % ni == i0i % ni) by {
            lemma_fundamental_div_mod(i0i, ni);
            let q = i0i / ni;
            assert(i0i + ni * si == (q + si) * ni + i0i % ni) by (nonlinear_arith)
                requires
                    i0i == ni * q + i0i % ni,
            ;
            vstd::arithmetic::div_mod::lemma_fundamental_div_mod_converse(
                i0i + ni * si,
                ni,
                q + si,
                i0i % ni,
            );
        }
        assert(i0i + c * si == i0i + ni * si);
    } else {
        lemma_step_injective(n, s, i0, 0, c);
        assert(((i0 + 0 * s) as int) % (n as int) == i0) by {
            assert((i0 + 0 * s) as int == i0 as int);
        }
    }
}

/// The `k`-th port the coprime-step walk emits.
pub open spec fn spec_walk_elem(start: nat, n: nat, i0: nat, s: nat, k: int) -> int {
    start + ((i0 + k * s) % (n as int))
}

/// The whole emitted sequence, as integers.
pub open spec fn spec_walk_seq(start: nat, n: nat, i0: nat, s: nat) -> Seq<int> {
    Seq::new(n, |k: int| spec_walk_elem(start, n, i0, s, k))
}

/// The walk's output holds every port of `[start, start + n)` exactly once.
proof fn lemma_walk_is_permutation(start: nat, n: nat, i0: nat, s: nat)
    requires
        n > 0,
        spec_gcd(n, s) == 1,
        i0 < n,
    ensures
        spec_walk_seq(start, n, i0, s).no_duplicates(),
        forall|p: int|
            (start <= p < start + n) <==> spec_walk_seq(start, n, i0, s).contains(p),
{
    let q = spec_walk_seq(start, n, i0, s);
    assert forall|k1: int, k2: int| 0 <= k1 < k2 < n implies q[k1] != q[k2] by {
        lemma_step_injective(n, s, i0, k1, k2);
    }
    assert(q.no_duplicates());
    let b = set_int_range(start as int, start as int + n as int);
    assert forall|k: int| 0 <= k < n implies b.contains(#[trigger] q[k]) by {
        assert(0 <= (i0 + k * s) % (n as int) < n);
    }
    assert(q.to_set().subset_of(b));
    q.unique_seq_to_set();
    lemma_int_range(start as int, start as int + n as int);
    lemma_subset_equality(q.to_set(), b);
    assert forall|p: int| (start <= p < start + n) implies q.contains(p) by {
        assert(b.contains(p));
        assert(q.to_set().contains(p));
    }
    assert forall|p: int| #[trigger] q.contains(p) implies start <= p < start + n by {
        let k = choose|k: int| 0 <= k < q.len() && q[k] == p;
        assert(0 <= (i0 + k * s) % (n as int) < n);
    }
}

/// Every port sequence the random strategy hands out covers its range
/// exactly once: it has the range's size, repeats nothing, and holds a
/// port exactly when the range does.
pub proof fn lemma_random_order_covers_range(r: Seq<u16>, start: u16, end: u16)
    requires
        start <= end,
        spec_is_port_permutation(r, start, end),
    ensures
        r.len() == end - start + 1,
        r.no_duplicates(),
        forall|p: u16| (start <= p <= end) <==> r.contains(p),
{
}

/// The lazy coprime-step walk over a normalized port range.
pub struct ArwahRange {
    active: bool,
    normalized_end: u32,
    normalized_first_pick: u32,
    normalized_pick: u32,
    actual_start: u32,
    step: u32,
    emitted: Ghost<nat>,
}

impl ArwahRange {
    /// The structural invariant of a walk in progress.
    pub closed spec fn wf(self) -> bool {
        &&& self.normalized_end >= 1
        &&& self.step < self.normalized_end
        &&& spec_gcd(self.normalized_end as nat, self.step as nat) == 1
        &&& self.normalized_first_pick < self.normalized_end
        &&& self.actual_start + self.normalized_end <= 65536
        &&& self.emitted@ <= self.normalized_end
        &&& self.normalized_pick == (self.normalized_first_pick + self.emitted@ * self.step) % (
        self.normalized_end as int)
        &&& (self.active <==> self.emitted@ < self.normalized_end)
    }

    /// Where the walk's range starts.
    pub closed spec fn spec_start(self) -> nat {
        self.actual_start as nat
    }

    /// How many ports the walk covers.
    pub closed spec fn spec_count(self) -> nat {
        self.normalized_end as nat
    }

    /// How many ports were already handed out.
    pub closed spec fn spec_emitted(self) -> nat {
        self.emitted@
    }

    /// The port the walk hands out at position `k`.
    pub closed spec fn spec_elem(self, k: int) -> int {
        spec_walk_elem(
            self.actual_start as nat,
            self.normalized_end as nat,
            self.normalized_first_pick as nat,
            self.step as nat,
            k,
        )
    }

    /// The walk's whole output.
    pub closed spec fn spec_seq(self) -> Seq<int> {
        spec_walk_seq(
            self.actual_start as nat,
            self.normalized_end as nat,
            self.normalized_first_pick as nat,
            self.step as nat,
        )
    }

    /// Starts a walk over `[start, end]` with a random first pick and a
    /// random step coprime to the range's size.
    pub fn arwah_new(start: u32, end: u32) -> (r: Self)
        requires
            start <= end,
            end <= 65535,
        ensures
            r.wf(),
            r.spec_emitted() == 0,
            r.spec_start() == start,
            r.spec_count() == end - start + 1,
    {
        let normalized_end = end - start + 1;
        let step = arwah_pick_random_coprime(normalized_end);
        let normalized_first_pick = arwah_random_below(0, normalized_end as usize) as u32;
        let r = Self {
            active: true,
            normalized_end,
            step,
            normalized_first_pick,
            normalized_pick: normalized_first_pick,
            actual_start: start,
            emitted: Ghost(0),
        };
        proof {
            lemma_small_mod(normalized_first_pick as nat, normalized_end as nat);
            assert(normalized_first_pick + 0 * step == normalized_first_pick);
        }
        r
    }

    /// Hands out the next port, or nothing once the walk has covered the
    /// whole range.
    pub fn arwah_next(&mut self) -> (r: Option<u16>)
        requires
            old(self).wf(),
        ensures
            final(self).wf(),
            final(self).spec_start() == old(self).spec_start(),
            final(self).spec_count() == old(self).spec_count(),
            forall|k: int| final(self).spec_elem(k) == old(self).spec_elem(k),
            final(self).spec_seq() == old(self).spec_seq(),
            old(self).spec_emitted() < old(self).spec_count() ==> r == Some(
                old(self).spec_elem(old(self).spec_emitted() as int) as u16,
            ) && final(self).spec_emitted() == old(self).spec_emitted() + 1,
            old(self).spec_emitted() == old(self).spec_count() ==> r is None
                && final(self).spec_emitted() == old(self).spec_emitted(),
    {
        if !self.active {
            return None;
        }
        let ghost n = self.normalized_end as nat;
        let ghost s = self.step as nat;
        let ghost i0 = self.normalized_first_pick as nat;
        let ghost c = self.emitted@;
        let current_pick = self.normalized_pick;
        proof {
            assert(0 <= ((i0 + c * s) as int) % (n as int) < n);
        }
        let next_pick = (current_pick + self.step) % self.normalized_end;
        proof {
            // the next residue is the walk's value at position c + 1
            lemma_fundamental_div_mod((i0 + c * s) as int, n as int);
            let q = (i0 + c * s) as int / (n as int);
            assert((i0 + (c + 1) * s) == (current_pick + s) + q * n) by (nonlinear_arith)
                requires
                    i0 + c * s == n * q + current_pick,
            ;
            lemma_mod_multiple_vanish_left(n, (current_pick + s) as int, q);
        }
        if next_pick == self.normalized_first_pick {
            proof {
                lemma_cycle_closes(n, s, i0, c as int + 1);
                assert(c + 1 == n);
            }
            self.active = false;
        } else {
            proof {
                lemma_cycle_closes(n, s, i0, c as int + 1);
                assert(c + 1 < n);
            }
        }
        self.normalized_pick = next_pick;
        proof {
            self.emitted@ = c + 1;
        }
        Some((self.actual_start + current_pick) as u16)
    }
}

/// Adding a multiple of the modulus on the right leaves a residue unchanged.
proof fn lemma_mod_multiple_vanish_left(n: nat, a: int, q: int)
    requires
        n > 0,
    ensures
        (a + q * n) % (n as int) == a % (n as int),
{
    lemma_fundamental_div_mod(a, n as int);
    let qa = a / (n as int);
    assert(a + q * n == (qa + q) * n + a % (n as int)) by (nonlinear_arith)
        requires
            a == (n as int) * qa + a % (n as int),
    ;
    vstd::arithmetic::div_mod::lemma_fundamental_div_mod_converse(
        a + q * n,
        n as int,
        qa + q,
        a % (n as int),
    );
}

/// Picks a step in `[count / 4, count - count / 4)` that is coprime to
/// `count`, retrying a bounded number of times and falling back to
/// `count - 1`.
pub fn arwah_pick_random_coprime(end: u32) -> (s: u32)
    requires
        1 <= end <= 65536,
    ensures
        s < end,
        spec_gcd(end as nat, s as nat) == 1,
        end == 1 ==> s == 0,
        end >= 2 ==> (end / 4 <= s < end - end / 4) || s == end - 1,
{
    if end == 1 {
        proof {
            assert(spec_gcd(1, 0) == 1);
        }
        return 0;
    }
    let range_boundary = end / 4;
    let lower_range = range_boundary;
    let upper_range = end - range_boundary;
    let mut candidate = arwah_random_below(lower_range as usize, upper_range as usize) as u32;
    let mut tries: u32 = 0;
    while tries < 10
        invariant
            2 <= end <= 65536,
            lower_range == end / 4,
            upper_range == end - end / 4,
            lower_range <= candidate < upper_range,
            upper_range <= end,
        decreases 10 - tries,
    {
        if arwah_gcd(end, candidate) == 1 {
            return candidate;
        }
        candidate = arwah_random_below(lower_range as usize, upper_range as usize) as u32;
        tries += 1;
    }
    proof {
        lemma_gcd_of_adjacent(end as nat);
    }
    end - 1
}

/// Adjacent numbers are coprime.
proof fn lemma_gcd_of_adjacent(n: nat)
    requires
        n >= 2,
    ensures
        spec_gcd(n, (n - 1) as nat) == 1,
{
    let m = (n - 1) as nat;
    if m == 1 {
        assert(spec_gcd(n, 1) == spec_gcd(1, n % 1));
        assert(n % 1 == 0) by {
            lemma_fundamental_div_mod(n as int, 1int);
        }
    } else {
        assert(n % m == 1) by {
            vstd::arithmetic::div_mod::lemma_fundamental_div_mod_converse(n as int, m as int, 1, 1);
        }
        assert(spec_gcd(n, m) == spec_gcd(m, 1));
        assert(spec_gcd(m, 1) == spec_gcd(1, m % 1));
        assert(m % 1 == 0) by {
            lemma_fundamental_div_mod(m as int, 1int);
        }
    }
}

/// Relies on rand's `random_range` over `lo..hi`: the drawn value lies in
/// the half-open range; the call panics only on an empty range, which the
/// precondition rules out.
#[verifier::external_body]
fn arwah_random_below(lo: usize, hi: usize) -> (r: usize)
    requires
        lo < hi,
    ensures
        lo <= r < hi,
{
    rand::random_range(lo..hi)
}

/// A sequence of ports that holds every port of `[start, end]` exactly once.
pub open spec fn spec_is_port_permutation(r: Seq<u16>, start: u16, end: u16) -> bool {
    &&& r.len() == end - start + 1
    &&& r.no_duplicates()
    &&& forall|p: u16| (start <= p <= end) <==> r.contains(p)
}

/// Runs a fresh coprime-step walk to completion and collects its output: a
/// full-cover permutation of `[start, end]`.
pub fn arwah_generate_walk(start: u16, end: u16) -> (r: Vec<u16>)
    requires
        start <= end,
    ensures
        spec_is_port_permutation(r@, start, end),
{
    let mut range = ArwahRange::arwah_new(start as u32, end as u32);
    let ghost gr = range;
    let mut out: Vec<u16> = Vec::new();
    loop
        invariant
            range.wf(),
            range.spec_start() == gr.spec_start(),
            range.spec_count() == gr.spec_count(),
            range.spec_seq() == gr.spec_seq(),
            forall|k: int| range.spec_elem(k) == gr.spec_elem(k),
            gr.spec_start() == start,
            gr.spec_count() == end - start + 1,
            out@.len() == range.spec_emitted(),
            range.spec_emitted() <= range.spec_count(),
            forall|k: int| 0 <= k < out@.len() ==> out@[k] == gr.spec_elem(k) as u16,
        ensures
            out@.len() == gr.spec_count(),
        decreases range.spec_count() - range.spec_emitted() + 1,
    {
        match range.arwah_next() {
            Some(port) => {
                out.push(port);
            },
            None => {
                break ;
            },
        }
    }
    proof {
        gr.lemma_walk_output_is_permutation();
        let n = gr.spec_count();
        let q = gr.spec_seq();
        assert(out@.len() == n);
        assert forall|k1: int, k2: int| 0 <= k1 < k2 < out@.len() implies out@[k1]
            != out@[k2] by {
            assert(q[k1] != q[k2]);
            assert(start <= q[k1] < start + n);
            assert(start <= q[k2] < start + n);
        }
        assert(out@.no_duplicates());
        assert forall|p: u16| (start <= p <= end) implies out@.contains(p) by {
            assert(q.contains(p as int));
            let k = choose|k: int| 0 <= k < q.len() && q[k] == p as int;
            assert(out@[k] == p);
        }
        assert forall|p: u16| #[trigger] out@.contains(p) implies start <= p <= end by {
            let k = choose|k: int| 0 <= k < out@.len() && out@[k] == p;
            assert(q[k] == gr.spec_elem(k));
            assert(start <= q[k] < start + n);
            assert(out@[k] == q[k] as u16);
        }
    }
    out
}

impl ArwahRange {
    /// The walk's output sequence is a permutation of its range.
    proof fn lemma_walk_output_is_permutation(self)
        requires
            self.wf(),
        ensures
            self.spec_seq().no_duplicates(),
            forall|p: int|
                (self.spec_start() <= p < self.spec_start() + self.spec_count())
                    <==> self.spec_seq().contains(p),
            forall|k: int|
                0 <= k < self.spec_count() ==> self.spec_seq()[k] == self.spec_elem(k)
                    && self.spec_start() <= #[trigger] self.spec_elem(k) < self.spec_start()
                    + self.spec_count(),
    {
        lemma_walk_is_permutation(
            self.actual_start as nat,
            self.normalized_end as nat,
            self.normalized_first_pick as nat,
            self.step as nat,
        );
        assert forall|k: int| 0 <= k < self.spec_count() implies self.spec_seq()[k]
            == self.spec_elem(k) && self.spec_start() <= #[trigger] self.spec_elem(k)
            < self.spec_start() + self.spec_count() by {
            assert(0 <= ((self.normalized_first_pick + k * self.step) as int) % (
            self.normalized_end as int) < self.normalized_end);
        }
    }
}

/// An inclusive range scanned in ascending order.
#[derive(Debug)]
pub struct ArwahSerialRange {
    pub start: u16,
    pub end: u16,
}

/// An inclusive range scanned in a random full-cover order.
#[derive(Debug)]
pub struct ArwahRandomRange {
    pub start: u16,
    pub end: u16,
}

impl ArwahSerialRange {
    /// Produces `start..=end` in ascending order; empty when `start > end`.
    pub fn arwah_generate(&self) -> (r: Vec<u16>)
        ensures
            self.start <= self.end ==> r@.len() == self.end - self.start + 1 && forall|k: int|
                0 <= k < r@.len() ==> r@[k] == self.start + k,
            self.start > self.end ==> r@.len() == 0,
    {
        let mut out: Vec<u16> = Vec::new();
        if self.start > self.end {
            return out;
        }
        let mut i: u32 = self.start as u32;
        let hi: u32 = self.end as u32;
        while i <= hi
            invariant
                self.start <= i,
                i <= hi + 1,
                hi == self.end,
                self.start <= self.end,
                out@.len() == i - self.start,
                forall|k: int| 0 <= k < out@.len() ==> out@[k] == self.start + k,
            decreases hi + 1 - i,
        {
            out.push(i as u16);
            i += 1;
        }
        out
    }
}

impl ArwahRandomRange {
    /// Produces a random full-cover permutation of `start..=end`.
    pub fn arwah_generate(&self) -> (r: Vec<u16>)
        requires
            self.start <= self.end,
        ensures
            spec_is_port_permutation(r@, self.start, self.end),
    {
        arwah_generate_walk(self.start, self.end)
    }
}

/// How the port sequence is produced: a stored list, a serial range, or a
/// random full-cover permutation of a range.
#[derive(Debug)]
pub enum ArwahStrategy {
    Manual(Vec<u16>),
    Serial(ArwahSerialRange),
    Random(ArwahRandomRange),
}

impl ArwahStrategy {
    /// A strategy whose ranges are ordered, so ordering it cannot fail.
    pub open spec fn wf(self) -> bool {
        match self {
            ArwahStrategy::Manual(_) => true,
            ArwahStrategy::Serial(_) => true,
            ArwahStrategy::Random(r) => r.start <= r.end,
        }
    }

    /// Chooses the strategy: an explicit port list wins over a range, and a
    /// random order shuffles the list or walks the range.
    pub fn arwah_pick(range: &Option<ArwahPortRange>, ports: Option<Vec<u16>>, order: ArwahScanOrder) -> (r: Self)
        requires
            ports is None ==> range is Some,
        ensures
            match (ports, order) {
                (Some(p), ArwahScanOrder::Serial) => r matches ArwahStrategy::Manual(m) && m@
                    == p@,
                (Some(p), ArwahScanOrder::Random) => r matches ArwahStrategy::Manual(m)
                    && m@.to_multiset() == p@.to_multiset(),
                (None, ArwahScanOrder::Serial) => r matches ArwahStrategy::Serial(s)
                    && s.start == range->0.start && s.end == range->0.end,
                (None, ArwahScanOrder::Random) => r matches ArwahStrategy::Random(s)
                    && s.start == range->0.start && s.end == range->0.end,
            },
    {
        match order {
            ArwahScanOrder::Serial => match ports {
                Some(p) => ArwahStrategy::Manual(p),
                None => {
                    let range = range.as_ref().unwrap();
                    ArwahStrategy::Serial(ArwahSerialRange { start: range.start, end: range.end })
                },
            },
            ArwahScanOrder::Random => match ports {
                Some(p) => {
                    let mut p = p;
                    arwah_shuffle(&mut p);
                    ArwahStrategy::Manual(p)
                },
                None => {
                    let range = range.as_ref().unwrap();
                    ArwahStrategy::Random(ArwahRandomRange { start: range.start, end: range.end })
                },
            },
        }
    }

    /// The ordered port sequence the strategy stands for: the stored list as
    /// given, the serial range ascending, or a fresh full-cover permutation.
    pub fn arwah_order(&self) -> (r: Vec<u16>)
        requires
            self.wf(),
        ensures
            match self {
                ArwahStrategy::Manual(p) => r@ == p@,
                ArwahStrategy::Serial(s) => (s.start <= s.end ==> r@.len() == s.end - s.start + 1
                    && (forall|k: int| 0 <= k < r@.len() ==> r@[k] == s.start + k)) && (s.start
                    > s.end ==> r@.len() == 0),
                ArwahStrategy::Random(s) => spec_is_port_permutation(r@, s.start, s.end),
            },
    {
        match self {
            ArwahStrategy::Manual(ports) => arwah_clone_ports(ports),
            ArwahStrategy::Serial(range) => range.arwah_generate(),
            ArwahStrategy::Random(range) => range.arwah_generate(),
        }
    }
}

/// Whatever list the manual strategy stores, ordering it yields a
/// permutation of the list that was picked: the stored list is a
/// permutation of the picked list, and the order is the stored list
/// itself.
pub proof fn lemma_manual_order_is_permutation(
    picked: Seq<u16>,
    stored: Seq<u16>,
    ordered: Seq<u16>,
)
    requires
        stored.to_multiset() == picked.to_multiset(),
        ordered == stored,
    ensures
        ordered.to_multiset() == picked.to_multiset(),
{
}

/// Exchanging two slots of a sequence leaves its multiset of values as it
/// was.
proof fn lemma_swap_keeps_multiset(s: Seq<u16>, i: int, j: int)
    requires
        0 <= i < s.len(),
        0 <= j < s.len(),
        i != j,
    ensures
        s.update(i, s[j]).update(j, s[i]).to_multiset() == s.to_multiset(),
{
    broadcast use vstd::seq_lib::group_to_multiset_ensures;

    let s1 = s.update(i, s[j]);
    assert(s1.to_multiset() == s.to_multiset().insert(s[j]).remove(s[i]));
    assert(s1[j] == s[j]);
    assert(s1.update(j, s[i]).to_multiset() == s1.to_multiset().insert(s[i]).remove(s1[j]));
    assert(s.to_multiset().contains(s[i]));
    assert(s.to_multiset().insert(s[j]).remove(s[i]).insert(s[i]).remove(s[j])
        =~= s.to_multiset());
}

/// An in-place uniform shuffle by repeated exchange with a random earlier
/// slot.
pub fn arwah_shuffle(v: &mut Vec<u16>)
    ensures
        final(v)@.to_multiset() == old(v)@.to_multiset(),
{
    let mut i: usize = v.len();
    while i > 1
        invariant
            i <= v@.len(),
            v@.len() == old(v)@.len(),
            v@.to_multiset() == old(v)@.to_multiset(),
        decreases i,
    {
        let j = arwah_random_below(0, i);
        i -= 1;
        if j != i {
            let a = v[i];
            let b = v[j];
            let ghost before = v@;
            v.set(i, b);
            v.set(j, a);
            proof {
                lemma_swap_keeps_multiset(before, i as int, j as int);
            }
        }
    }
}

} // verus!
