//! The once-a-second sample of the sessions' byte counters.
use vstd::prelude::*;

use crate::events::{HubEvent, MetricsSample};
use crate::hub::find;
use crate::hub::model;
use crate::hub::tables;
use crate::hub::{Counters, Hub, HubAction, SessionInfo};

verus! {

/// `a - b`, or 0 where that is negative.
fn less(a: u64, b: u64) -> (r: u64)
    ensures
        r == model::less(a, b),
{
    if a >= b {
        a - b
    } else {
        0
    }
}

/// The sample of a session.
fn sample(x: &SessionInfo, now: (u64, u64), prev: &Vec<Counters>) -> (r: MetricsSample)
    ensures
        r == model::sample(x.deep_view(), now, prev@),
{
    let last: (u64, u64) = match find::find_counters(prev, x.sid) {
        Some(i) => (prev[i].bytes_in, prev[i].bytes_out),
        None => now,
    };
    MetricsSample {
        network: x.net_uuid,
        client_uuid: x.client_uuid,
        bps_in: less(now.0, last.0),
        bps_out: less(now.1, last.1),
        total_in: now.0,
        total_out: now.1,
    }
}

impl Hub {
    /// A second has passed. `now` are the counters of the sessions, bytes in
    /// and bytes out, in the order of `sessions`. Nothing is told where there
    /// is no session.
    pub fn emit_metrics_tick(&mut self, now: &Vec<(u64, u64)>) -> (r: Vec<HubAction>)
        requires
            now.len() == old(self).sessions.len(),
        ensures
            final(self).deep_view() == model::tick_step(old(self).deep_view(), now@).0,
            r.deep_view() == model::tick_step(old(self).deep_view(), now@).1,
    {
        let ghost s = self.deep_view();
        let mut out = tables::no_actions();
        let mut samples: Vec<MetricsSample> = Vec::new();
        let mut counts: Vec<Counters> = Vec::new();
        let mut i: usize = 0;
        while i < self.sessions.len()
            invariant
                0 <= i <= self.sessions.len(),
                now.len() == self.sessions.len(),
                s == self.deep_view(),
                samples.len() == i,
                counts.len() == i,
                forall|j: int|
                    0 <= j < i ==> #[trigger] samples[j] == model::sample(
                        s.sessions[j],
                        now[j],
                        s.metrics_prev,
                    ),
                forall|j: int|
                    0 <= j < i ==> #[trigger] counts[j] == (Counters {
                        sid: s.sessions[j].sid,
                        bytes_in: now[j].0,
                        bytes_out: now[j].1,
                    }),
            decreases self.sessions.len() - i,
        {
            assert(s.sessions[i as int] == self.sessions[i as int].deep_view());
            samples.push(sample(&self.sessions[i], now[i], &self.metrics_prev));
            counts.push(
                Counters { sid: self.sessions[i].sid, bytes_in: now[i].0, bytes_out: now[i].1 },
            );
            i += 1;
        }
        let some = self.sessions.len() > 0;
        self.metrics_prev = counts;
        if some {
            assert(samples.deep_view() =~= Seq::new(
                s.sessions.len(),
                |i: int| model::sample(s.sessions[i], now[i], s.metrics_prev),
            ));
            tables::act(&mut out, HubAction::Emit(HubEvent::MetricsTick { samples: samples }));
        }
        assert(self.deep_view() =~= model::tick_step(s, now@).0);
        assert(out.deep_view() =~= model::tick_step(s, now@).1);
        out
    }
}

} // verus!
