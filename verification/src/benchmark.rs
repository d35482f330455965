//! Named wall-clock timers and their summary.

use vstd::prelude::*;
use crate::fmt_text::{arwah_u64_text, spec_decimal};

verus! {

/// One named timer: when it was started and, once ended, when it ended.
#[derive(Debug)]
pub struct ArwahNamedTimer {
    pub name: String,
    pub start: Option<u64>,
    pub end: Option<u64>,
}

/// The collected timers of one run.
#[derive(Debug)]
pub struct ArwahBenchmark {
    pub named_timers: Vec<ArwahNamedTimer>,
}

/// Relies on `std::time::SystemTime`: a wall-clock reading in
/// milliseconds.  Nothing is promised of the value; two calls may return
/// anything the clock says.
#[verifier::external_body]
fn arwah_now_millis() -> u64 {
    match std::time::SystemTime::now().duration_since(std::time::UNIX_EPOCH) {
        Ok(d) => u64::try_from(d.as_millis()).unwrap_or(u64::MAX),
        Err(_) => 0,
    }
}

impl ArwahNamedTimer {
    /// Starts a named timer now.
    pub fn arwah_start(name: &str) -> (r: Self)
        ensures
            r.name@ == name@,
            r.start is Some,
            r.end is None,
    {
        ArwahNamedTimer { name: name.to_owned(), start: Some(arwah_now_millis()), end: None }
    }

    /// Ends the timer now.
    pub fn arwah_end(&mut self)
        ensures
            final(self).end is Some,
            final(self).name == old(self).name,
            final(self).start == old(self).start,
    {
        self.end = Some(arwah_now_millis());
    }
}

impl ArwahBenchmark {
    /// An empty collection.
    pub fn arwah_init() -> (r: Self)
        ensures
            r.named_timers@.len() == 0,
    {
        ArwahBenchmark { named_timers: Vec::new() }
    }

    /// Adds a timer.
    pub fn arwah_push(&mut self, timer: ArwahNamedTimer)
        ensures
            final(self).named_timers@ == old(self).named_timers@.push(timer),
    {
        self.named_timers.push(timer);
    }

    /// The summary: a heading, then one line for every timer that was both
    /// started and ended, with its elapsed seconds.
    pub fn arwah_summary(&self) -> (r: String)
        ensures
            r@ == "\nArwah Benchmark Summary"@ + spec_summary_of(self.named_timers@),
    {
        let mut summary = String::new();
        summary.append("\nArwah Benchmark Summary");
        let ghost head = summary@;
        let mut i: usize = 0;
        proof {
            assert(spec_summary_of(self.named_timers@.take(0)) =~= Seq::<char>::empty());
            assert(summary@ =~= head + spec_summary_of(self.named_timers@.take(0)));
        }
        while i < self.named_timers.len()
            invariant
                i <= self.named_timers@.len(),
                summary@ == head + spec_summary_of(self.named_timers@.take(i as int)),
            decreases self.named_timers@.len() - i,
        {
            let timer = &self.named_timers[i];
            if let (Some(start), Some(end)) = (&timer.start, &timer.end) {
                summary.append("\n");
                summary.append(timer.name.as_str());
                let ghost padded_from = summary@;
                let start_pad = timer.name.as_str().unicode_len();
                let mut pad = start_pad;
                proof {
                    assert(padded_from + spec_spaces(0nat) =~= padded_from);
                }
                while pad < 10
                    invariant
                        start_pad <= pad,
                        start_pad < 10 ==> pad <= 10,
                        start_pad >= 10 ==> pad == start_pad,
                        summary@ == padded_from + spec_spaces((pad - start_pad) as nat),
                    decreases 10 - pad,
                {
                    summary.append(" ");
                    pad += 1;
                    proof {
                        assert(spec_spaces((pad - start_pad) as nat) == spec_spaces(
                            (pad - 1 - start_pad) as nat,
                        ) + " "@);
                        assert(summary@ =~= padded_from + spec_spaces((pad - start_pad) as nat));
                    }
                }
                summary.append(" | ");
                let elapsed: u64 = if *end >= *start {
                    *end - *start
                } else {
                    0
                };
                summary.append(arwah_seconds_text(elapsed).as_str());
                summary.append("s");
                proof {
                    assert(summary@ =~= head + spec_summary_of(self.named_timers@.take(i as int))
                        + spec_timer_line(self.named_timers@[i as int]));
                }
            }
            i += 1;
            proof {
                assert(self.named_timers@.take(i as int).drop_last() =~= self.named_timers@.take(
                    i - 1,
                ));
                assert(self.named_timers@.take(i as int).last() == self.named_timers@[i - 1]);
                assert(summary@ =~= head + spec_summary_of(self.named_timers@.take(i as int)));
            }
        }
        proof {
            assert(self.named_timers@.take(self.named_timers@.len() as int) =~= self.named_timers@);
        }
        summary
    }
}

/// The given number of padding spaces.
pub open spec fn spec_spaces(n: nat) -> Seq<char>
    decreases n,
{
    if n == 0 {
        Seq::empty()
    } else {
        spec_spaces((n - 1) as nat) + " "@
    }
}

/// What milliseconds render to: whole seconds, then three decimals.
pub open spec fn spec_seconds_text(millis: u64) -> Seq<char> {
    spec_decimal((millis / 1000) as int) + "."@ + spec_decimal((millis % 1000 / 100) as int)
        + spec_decimal((millis % 100 / 10) as int) + spec_decimal((millis % 10) as int)
}

/// The summary line of one timer: nothing unless it was both started and
/// ended, else its name padded to ten places and its elapsed seconds.
pub open spec fn spec_timer_line(t: ArwahNamedTimer) -> Seq<char> {
    match (t.start, t.end) {
        (Some(s), Some(e)) => "\n"@ + t.name@ + spec_spaces(
            if t.name@.len() < 10 {
                (10 - t.name@.len()) as nat
            } else {
                0nat
            },
        ) + " | "@ + spec_seconds_text(
            if e >= s {
                (e - s) as u64
            } else {
                0u64
            },
        ) + "s"@,
        _ => Seq::empty(),
    }
}

/// The summary body: the timers' lines in order.
pub open spec fn spec_summary_of(ts: Seq<ArwahNamedTimer>) -> Seq<char>
    decreases ts.len(),
{
    if ts.len() == 0 {
        Seq::empty()
    } else {
        spec_summary_of(ts.drop_last()) + spec_timer_line(ts.last())
    }
}

/// Milliseconds rendered as seconds with three decimals.
pub fn arwah_seconds_text(millis: u64) -> (r: String)
    ensures
        r@ == spec_seconds_text(millis),
{
    let mut out = arwah_u64_text(millis / 1000);
    out.append(".");
    out.append(arwah_u64_text(millis % 1000 / 100).as_str());
    out.append(arwah_u64_text(millis % 100 / 10).as_str());
    out.append(arwah_u64_text(millis % 10).as_str());
    out
}

} // verus!
