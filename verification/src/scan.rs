//! The scan engine's decisions: the bounded in-flight window, per-probe
//! retry verdicts, error bucketing, and the UDP payload table.

use vstd::prelude::*;
use crate::address::ArwahIpAddress;
use crate::strategy::ArwahStrategy;

verus! {

pub const ARWAH_AVERAGE_BATCH_SIZE: u16 = 3000;

pub const ARWAH_DEFAULT_FILE_DESCRIPTORS_LIMIT: u64 = 8000;

/// The scan's settings, fixed before any probe is launched.
#[derive(Debug)]
pub struct ArwahScanner {
    pub ips: Vec<ArwahIpAddress>,
    pub batch_size: u16,
    pub timeout_ms: u64,
    pub tries: u8,
    pub greppable: bool,
    pub strategy: ArwahStrategy,
    pub accessible: bool,
    pub exclude_ports: Vec<u16>,
    pub udp: bool,
}

impl ArwahScanner {
    /// Builds the scanner; a zero try count is coerced to one.
    pub fn arwah_new(
        ips: &Vec<ArwahIpAddress>,
        batch_size: u16,
        timeout_ms: u64,
        tries: u8,
        greppable: bool,
        strategy: ArwahStrategy,
        accessible: bool,
        exclude_ports: Vec<u16>,
        udp: bool,
    ) -> (r: Self)
        ensures
            r.ips@ == ips@,
            r.batch_size == batch_size,
            r.timeout_ms == timeout_ms,
            r.tries == if tries >= 1 {
                tries
            } else {
                1u8
            },
            r.tries >= 1,
            r.greppable == greppable,
            r.strategy == strategy,
            r.accessible == accessible,
            r.exclude_ports == exclude_ports,
            r.udp == udp,
    {
        ArwahScanner {
            ips: crate::address::arwah_clone_ips(ips),
            batch_size,
            timeout_ms,
            tries: if tries >= 1 {
                tries
            } else {
                1
            },
            greppable,
            strategy,
            accessible,
            exclude_ports,
            udp,
        }
    }

    /// The port sequence of the scan: the strategy's order with the
    /// excluded ports removed.
    pub fn arwah_scan_ports(&self) -> (r: Vec<u16>)
        requires
            self.strategy.wf(),
        ensures
            forall|p: u16| r@.contains(p) ==> !self.exclude_ports@.contains(p),
    {
        let ordered = self.strategy.arwah_order();
        arwah_filter_ports(&ordered, &self.exclude_ports)
    }
}

/// The given ports with every excluded one removed, order kept.
pub open spec fn spec_filter_ports(ports: Seq<u16>, exclude: Seq<u16>) -> Seq<u16>
    decreases ports.len(),
{
    if ports.len() == 0 {
        Seq::empty()
    } else if exclude.contains(ports.last()) {
        spec_filter_ports(ports.drop_last(), exclude)
    } else {
        spec_filter_ports(ports.drop_last(), exclude).push(ports.last())
    }
}

/// Keeps the ports outside the excluded list, in their given order.
pub fn arwah_filter_ports(ports: &Vec<u16>, exclude: &Vec<u16>) -> (r: Vec<u16>)
    ensures
        r@ == spec_filter_ports(ports@, exclude@),
        forall|p: u16| #[trigger] r@.contains(p) ==> !exclude@.contains(p),
{
    let mut out: Vec<u16> = Vec::new();
    let mut i: usize = 0;
    proof {
        assert(ports@.take(0) =~= Seq::<u16>::empty());
    }
    while i < ports.len()
        invariant
            i <= ports@.len(),
            out@ == spec_filter_ports(ports@.take(i as int), exclude@),
            forall|p: u16| #[trigger] out@.contains(p) ==> !exclude@.contains(p),
        decreases ports@.len() - i,
    {
        let p = ports[i];
        let excluded = arwah_port_listed(exclude, p);
        let ghost before = out@;
        if !excluded {
            out.push(p);
        }
        i += 1;
        proof {
            let pre = ports@.take(i as int);
            assert(pre.drop_last() =~= ports@.take(i - 1));
            assert(pre.last() == ports@[i - 1]);
            assert(out@ == spec_filter_ports(pre, exclude@));
            if !excluded {
                assert forall|q: u16| #[trigger] out@.contains(q) implies !exclude@.contains(
                    q,
                ) by {
                    let k = choose|k: int| 0 <= k < out@.len() && out@[k] == q;
                    if k < out@.len() - 1 {
                        assert(before.contains(q)) by {
                            assert(before[k] == q);
                        }
                    }
                }
            }
        }
    }
    proof {
        assert(ports@.take(ports@.len() as int) =~= ports@);
    }
    out
}

/// Whether the list holds the port.
pub fn arwah_port_listed(list: &Vec<u16>, p: u16) -> (r: bool)
    ensures
        r == list@.contains(p),
{
    let mut i: usize = 0;
    while i < list.len()
        invariant
            i <= list@.len(),
            forall|k: int| 0 <= k < i ==> list@[k] != p,
        decreases list@.len() - i,
    {
        if list[i] == p {
            return true;
        }
        i += 1;
    }
    false
}

/// The bounded pool of in-flight probes.  The number outstanding never
/// exceeds the batch size: `launch` demands room, and every transition
/// keeps `wf`, which caps `outstanding`.
pub struct ArwahScanPool {
    pub batch_size: u16,
    pub total: usize,
    pub launched: usize,
    pub outstanding: usize,
}

impl ArwahScanPool {
    /// The pool's invariant; in particular the in-flight window never holds
    /// more than `batch_size` probes.
    pub open spec fn wf(self) -> bool {
        &&& self.outstanding <= self.batch_size
        &&& self.outstanding <= self.launched
        &&& self.launched <= self.total
    }

    /// An idle pool over `total` targets.
    pub fn arwah_begin(batch_size: u16, total: usize) -> (r: Self)
        ensures
            r.wf(),
            r.batch_size == batch_size,
            r.total == total,
            r.launched == 0,
            r.outstanding == 0,
    {
        ArwahScanPool { batch_size, total, launched: 0, outstanding: 0 }
    }

    /// Whether another probe may be launched now.
    pub fn arwah_can_launch(&self) -> (r: bool)
        ensures
            r == (self.outstanding < self.batch_size && self.launched < self.total),
    {
        self.outstanding < self.batch_size as usize && self.launched < self.total
    }

    /// Accounts for one launched probe; the window cap is preserved.
    pub fn arwah_launch(&mut self)
        requires
            old(self).wf(),
            old(self).outstanding < old(self).batch_size,
            old(self).launched < old(self).total,
        ensures
            final(self).wf(),
            final(self).batch_size == old(self).batch_size,
            final(self).total == old(self).total,
            final(self).launched == old(self).launched + 1,
            final(self).outstanding == old(self).outstanding + 1,
            final(self).outstanding <= final(self).batch_size,
    {
        self.launched += 1;
        self.outstanding += 1;
    }

    /// Accounts for one completed probe.
    pub fn arwah_complete(&mut self)
        requires
            old(self).wf(),
            old(self).outstanding > 0,
        ensures
            final(self).wf(),
            final(self).batch_size == old(self).batch_size,
            final(self).total == old(self).total,
            final(self).launched == old(self).launched,
            final(self).outstanding == old(self).outstanding - 1,
    {
        self.outstanding -= 1;
    }

    /// Whether every target has received its terminal outcome.
    pub fn arwah_done(&self) -> (r: bool)
        ensures
            r == (self.launched == self.total && self.outstanding == 0),
    {
        self.launched == self.total && self.outstanding == 0
    }
}

/// The in-flight window stays within its cap: a well-formed pool never
/// holds more outstanding probes than the batch size, and both
/// transitions keep the pool well-formed.
pub proof fn lemma_pool_window_is_bounded(pool: ArwahScanPool)
    requires
        pool.wf(),
    ensures
        pool.outstanding <= pool.batch_size,
{
}

/// What the lowercase folding of an error string is; the folding depends on
/// the characters alone.
pub uninterp spec fn spec_lower_of(s: Seq<char>) -> Seq<char>;

/// Relies on `str::to_lowercase`: the result is the Unicode lowercase
/// folding of the input, a function of the characters alone.
#[verifier::external_body]
fn arwah_lowercase(s: &str) -> (r: String)
    ensures
        r@ == spec_lower_of(s@),
{
    s.to_lowercase()
}

/// Whether `needle` occurs contiguously inside `hay`.
pub open spec fn spec_has_substring(hay: Seq<char>, needle: Seq<char>) -> bool {
    exists|at: int|
        0 <= at <= hay.len() - needle.len() && #[trigger] hay.subrange(at, at + needle.len())
            == needle
}

/// Substring search, byte by byte over ASCII text and character by
/// character otherwise.
pub fn arwah_contains_text(hay: &String, needle: &str) -> (r: bool)
    ensures
        r == spec_has_substring(hay@, needle@),
{
    let hs = hay.as_str();
    proof {
        assert(hs@ == hay@);
    }
    let hn = hs.unicode_len();
    let nn = needle.unicode_len();
    if nn == 0 {
        proof {
            assert(hay@.subrange(0, 0 + needle@.len() as int) =~= needle@);
            assert(spec_has_substring(hay@, needle@)) by {
                assert(hay@.subrange(0, 0 + needle@.len() as int) == needle@);
            }
        }
        return true;
    }
    if nn > hn {
        // no position can fit a needle longer than the text
        return false;
    }
    proof {
        assert(needle@.subrange(0, needle@.len() as int) =~= needle@);
    }
    let mut at: usize = 0;
    while at <= hn - nn
        invariant
            0 < nn <= hn,
            hn == hay@.len(),
            nn == needle@.len(),
            hs@ == hay@,
            at <= hn - nn + 1,
            forall|a: int| 0 <= a < at ==> #[trigger] hay@.subrange(a, a + needle@.len()) != needle@,
        decreases hn - nn + 1 - at,
    {
        let mut j: usize = 0;
        let mut matches = true;
        while j < nn
            invariant
                matches ==> hay@.subrange(at as int, at + j) =~= needle@.subrange(0, j as int),
                !matches ==> hay@.subrange(at as int, at + needle@.len()) != needle@,
                j <= nn,
                nn > 0,
                at + nn <= hn,
                hn == hay@.len(),
                nn == needle@.len(),
                hs@ == hay@,
            ensures
                matches ==> hay@.subrange(at as int, at + needle@.len()) == needle@,
                !matches ==> hay@.subrange(at as int, at + needle@.len()) != needle@,
            decreases nn - j,
        {
            if hs.get_char(at + j) != needle.get_char(j) {
                matches = false;
                proof {
                    assert(hay@.subrange(at as int, at + needle@.len())[j as int] == hay@[at + j]);
                    assert(hay@.subrange(at as int, at + needle@.len()) != needle@);
                }
                break ;
            }
            j += 1;
            proof {
                if matches {
                    assert(hay@.subrange(at as int, at + j) =~= needle@.subrange(0, j as int));
                }
            }
        }
        if matches {
            return true;
        }
        at += 1;
    }
    proof {
        if spec_has_substring(hay@, needle@) {
            let a = choose|a: int|
                0 <= a <= hay@.len() - needle@.len() && #[trigger] hay@.subrange(
                    a,
                    a + needle@.len(),
                ) == needle@;
            assert(a < at);
        }
    }
    false
}

/// The text whose presence in a connect error marks the file-descriptor
/// limit as exhausted.
pub open spec fn spec_fd_exhaustion_needle() -> Seq<char> {
    "too many open files"@
}

/// What one failed TCP connect attempt decides.
#[derive(Debug, PartialEq, Eq, Structural)]
pub enum ArwahProbeVerdict {
    /// The descriptor table is exhausted: the scan must abort.
    Fatal,
    /// Attempts remain: connect once more.
    Retry,
    /// The last attempt failed: report the error, with the address appended.
    Closed,
}

/// Decides what a failed TCP connect attempt means: descriptor exhaustion
/// is fatal, an earlier attempt retries, and the last attempt gives the
/// error up.
pub fn arwah_tcp_probe_verdict(attempt: u8, tries: u8, error_text: &String) -> (r:
    ArwahProbeVerdict)
    requires
        1 <= attempt <= tries,
    ensures
        r == ArwahProbeVerdict::Fatal <==> spec_has_substring(
            spec_lower_of(error_text@),
            spec_fd_exhaustion_needle(),
        ),
        r != ArwahProbeVerdict::Fatal ==> (r == ArwahProbeVerdict::Closed <==> attempt == tries),
{
    let lowered = arwah_lowercase(error_text.as_str());
    proof {
        reveal_strlit("too many open files");
    }
    if arwah_contains_text(&lowered, "too many open files") {
        ArwahProbeVerdict::Fatal
    } else if attempt == tries {
        ArwahProbeVerdict::Closed
    } else {
        ArwahProbeVerdict::Retry
    }
}

/// The capacity of the error bucket: a thousand entries per target
/// address.
pub fn arwah_error_capacity(ip_count: usize) -> (r: usize)
    requires
        ip_count <= usize::MAX / 1000,
    ensures
        r == ip_count * 1000,
{
    ip_count * 1000
}

/// Buckets one terminal error: each distinct message is kept once, and
/// nothing is kept beyond the capacity.
pub fn arwah_bucket_error(errors: &mut Vec<String>, cap: usize, message: String)
    requires
        old(errors)@.no_duplicates(),
    ensures
        final(errors)@.no_duplicates(),
        final(errors)@.len() <= vstd::math::max(old(errors)@.len() as int, cap as int),
        (exists|k: int|
            0 <= k < final(errors)@.len() && final(errors)@[k]@ == message@) || old(
            errors,
        )@.len() >= cap,
        forall|k: int|
            0 <= k < old(errors)@.len() ==> final(errors)@[k] == old(errors)@[k],
{
    if errors.len() >= cap {
        return ;
    }
    let mut i: usize = 0;
    while i < errors.len()
        invariant
            i <= errors@.len(),
            *errors == *old(errors),
            old(errors)@.no_duplicates(),
            forall|k: int| 0 <= k < i ==> errors@[k]@ != message@,
        decreases errors@.len() - i,
    {
        if errors[i].eq(&message) {
            proof {
                assert(errors@[i as int]@ == message@);
            }
            return ;
        }
        i += 1;
    }
    let ghost before = errors@;
    errors.push(message);
    proof {
        assert forall|k1: int, k2: int|
            0 <= k1 < k2 < errors@.len() implies errors@[k1] != errors@[k2] by {
            if k2 < errors@.len() - 1 {
                assert(before[k1] != before[k2]);
            } else {
                assert(errors@[k1]@ != message@);
            }
        }
        assert(errors@[errors@.len() - 1]@ == message@);
    }
}

/// The UDP probe payload table: each entry maps a set of ports to the bytes
/// sent to them.
pub struct ArwahUdpPayloadTable {
    pub entries: Vec<(Vec<u16>, Vec<u8>)>,
}

/// The payload the table selects for a port: the last entry listing the
/// port wins; with no match the payload is empty.
pub open spec fn spec_payload_for(entries: Seq<(Seq<u16>, Seq<u8>)>, port: u16) -> Seq<u8>
    decreases entries.len(),
{
    if entries.len() == 0 {
        Seq::empty()
    } else if entries.last().0.contains(port) {
        entries.last().1
    } else {
        spec_payload_for(entries.drop_last(), port)
    }
}

impl ArwahUdpPayloadTable {
    /// The table's entries as sequences.
    pub open spec fn spec_entries(self) -> Seq<(Seq<u16>, Seq<u8>)> {
        Seq::new(self.entries@.len(), |k: int| (self.entries@[k].0@, self.entries@[k].1@))
    }

    /// An empty table: every probe is sent without a payload.
    pub fn arwah_empty() -> (r: Self)
        ensures
            r.spec_entries().len() == 0,
    {
        ArwahUdpPayloadTable { entries: Vec::new() }
    }

    /// Selects the payload for a port, the last matching entry winning.
    pub fn arwah_payload_for(&self, port: u16) -> (r: Vec<u8>)
        ensures
            r@ == spec_payload_for(self.spec_entries(), port),
    {
        let ghost entries = self.spec_entries();
        let mut chosen: Option<usize> = None;
        let mut i: usize = 0;
        while i < self.entries.len()
            invariant
                i <= self.entries@.len(),
                entries == self.spec_entries(),
                entries.len() == self.entries@.len(),
                forall|k: int|
                    0 <= k < entries.len() ==> (#[trigger] entries[k]) == (
                    self.entries@[k].0@,
                    self.entries@[k].1@,
                ),
                match chosen {
                    Some(c) => c < i && entries[c as int].0.contains(port) && forall|k: int|
                        c < k < i ==> !(#[trigger] entries[k]).0.contains(port),
                    None => forall|k: int| 0 <= k < i ==> !(#[trigger] entries[k]).0.contains(port),
                },
            decreases self.entries@.len() - i,
        {
            if arwah_port_listed(&self.entries[i].0, port) {
                chosen = Some(i);
            }
            i += 1;
        }
        proof {
            lemma_payload_last_match(entries, port, entries.len() as int, chosen);
            assert(entries.take(entries.len() as int) =~= entries);
        }
        match chosen {
            Some(c) => crate::scan::arwah_clone_bytes(&self.entries[c].1),
            None => Vec::new(),
        }
    }
}

/// The recursive payload selection agrees with the last listed match among
/// the first `n` entries.
proof fn lemma_payload_last_match(
    entries: Seq<(Seq<u16>, Seq<u8>)>,
    port: u16,
    n: int,
    chosen: Option<usize>,
)
    requires
        0 <= n <= entries.len(),
        match chosen {
            Some(c) => c < n && entries[c as int].0.contains(port) && forall|k: int|
                c < k < n ==> !(#[trigger] entries[k]).0.contains(port),
            None => forall|k: int| 0 <= k < n ==> !(#[trigger] entries[k]).0.contains(port),
        },
    ensures
        spec_payload_for(entries.take(n), port) == match chosen {
            Some(c) => entries[c as int].1,
            None => Seq::<u8>::empty(),
        },
    decreases n,
{
    if n == 0 {
    } else {
        let prefix = entries.take(n);
        assert(prefix.last() == entries[n - 1]);
        assert(prefix.drop_last() =~= entries.take(n - 1));
        match chosen {
            Some(c) => {
                if c == n - 1 {
                    assert(prefix.last().0.contains(port));
                } else {
                    assert(!entries[n - 1].0.contains(port));
                    lemma_payload_last_match(entries, port, n - 1, chosen);
                }
            },
            None => {
                assert(!entries[n - 1].0.contains(port));
                lemma_payload_last_match(entries, port, n - 1, chosen);
            },
        }
    }
}

/// Copy of a byte vector.
pub fn arwah_clone_bytes(v: &Vec<u8>) -> (r: Vec<u8>)
    ensures
        r@ == v@,
{
    let mut out: Vec<u8> = Vec::new();
    let mut i: usize = 0;
    while i < v.len()
        invariant
            i <= v.len(),
            out@ =~= v@.subrange(0, i as int),
        decreases v.len() - i,
    {
        out.push(v[i]);
        i += 1;
    }
    proof {
        assert(out@ =~= v@);
    }
    out
}

/// What one UDP attempt decides: a received byte marks the port open at
/// once, a timeout moves to the next attempt or, on the last, marks the
/// port closed, and any other error is surfaced.
#[derive(Debug, PartialEq, Eq, Structural)]
pub enum ArwahUdpVerdict {
    Open,
    NextTry,
    ClosedAllTimedOut,
    Surface,
}

/// One UDP attempt's outcome, as the socket reported it.
#[derive(Debug, PartialEq, Eq, Structural)]
pub enum ArwahUdpOutcome {
    Received,
    TimedOut,
    Failed,
}

/// Decides what a UDP attempt's outcome means for the probe.
pub fn arwah_udp_probe_verdict(attempt: u8, tries: u8, outcome: ArwahUdpOutcome) -> (r:
    ArwahUdpVerdict)
    requires
        1 <= attempt <= tries,
    ensures
        outcome == ArwahUdpOutcome::Received ==> r == ArwahUdpVerdict::Open,
        outcome == ArwahUdpOutcome::Failed ==> r == ArwahUdpVerdict::Surface,
        outcome == ArwahUdpOutcome::TimedOut && attempt < tries ==> r == ArwahUdpVerdict::NextTry,
        outcome == ArwahUdpOutcome::TimedOut && attempt == tries ==> r
            == ArwahUdpVerdict::ClosedAllTimedOut,
    {
    match outcome {
        ArwahUdpOutcome::Received => ArwahUdpVerdict::Open,
        ArwahUdpOutcome::Failed => ArwahUdpVerdict::Surface,
        ArwahUdpOutcome::TimedOut => if attempt == tries {
            ArwahUdpVerdict::ClosedAllTimedOut
        } else {
            ArwahUdpVerdict::NextTry
        },
    }
}

/// Batch-size adjustment against the effective open-file limit: a limit
/// below the wanted batch size halves it below the average size, pins it to
/// the average above the default limit, and otherwise leaves a hundred
/// descriptors of headroom.
pub fn arwah_inter_batch_size(opts: &crate::input::ArwahOpts, ulimit: u64) -> (r: u16)
    ensures
        r as u64 == spec_inter_batch_size(opts.batch_size as u64, ulimit),
{
    let mut batch_size: u64 = opts.batch_size as u64;
    if ulimit < batch_size {
        if ulimit < ARWAH_AVERAGE_BATCH_SIZE as u64 {
            batch_size = ulimit / 2;
        } else if ulimit > ARWAH_DEFAULT_FILE_DESCRIPTORS_LIMIT {
            batch_size = ARWAH_AVERAGE_BATCH_SIZE as u64;
        } else {
            batch_size = ulimit - 100;
        }
    }
    batch_size as u16
}

/// Relies on rlimit's `Resource::NOFILE.set`: raises the soft and hard
/// open-file limits to the given value where the system allows it.
#[verifier::external_body]
fn arwah_set_open_file_limit(limit: u64) -> (r: bool) {
    rlimit::Resource::NOFILE.set(limit, limit).is_ok()
}

/// Relies on rlimit's `Resource::NOFILE.get`: the soft open-file limit
/// now.  Nothing is promised of the value; the system decides it.
#[verifier::external_body]
fn arwah_get_open_file_limit() -> (r: Option<u64>) {
    rlimit::Resource::NOFILE.get().ok().map(|limits| limits.0)
}

/// Raises the open-file limit where one was asked for, and reports the
/// soft limit the scan now runs under; a system that reports no limit
/// counts as granting none.
pub fn arwah_adjust_ulimit_size(opts: &crate::input::ArwahOpts) -> (r: u64) {
    if let Some(limit) = &opts.ulimit {
        let _ = arwah_set_open_file_limit(*limit);
    }
    match arwah_get_open_file_limit() {
        Some(soft) => soft,
        None => 0,
    }
}

/// The batch size the scan actually runs with, given the wanted size and
/// the open-file limit.
pub open spec fn spec_inter_batch_size(wanted: u64, ulimit: u64) -> u64 {
    if ulimit < wanted {
        if ulimit < ARWAH_AVERAGE_BATCH_SIZE as u64 {
            ulimit / 2
        } else if ulimit > ARWAH_DEFAULT_FILE_DESCRIPTORS_LIMIT {
            ARWAH_AVERAGE_BATCH_SIZE as u64
        } else {
            (ulimit - 100) as u64
        }
    } else {
        wanted
    }
}

} // verus!
