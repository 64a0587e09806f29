use vstd::prelude::*;
use crate::manifest::{disk_after, manifest_spec};
use crate::plan::{plan_spec, process_meeting, recs_view, RecView, Recordings};
use crate::time::{
    check_supported, in_range, round_spec, round_time_to_hour, supported_spec, total_seconds_spec,
    LocalTime, TimeError,
};
use crate::timeapi::{utc_to_zone_wall_clock, wall_clock_in_zone, zone_resolves};
use crate::zoom::ZoomMeeting;

verus! {

/// The normalized (zone-local, rounded) time of one meeting, or why it has
/// none.
pub open spec fn meeting_time_spec(m: ZoomMeeting) -> Result<LocalTime, TimeError> {
    if !zone_resolves(m.timezone@) {
        Err(TimeError::InvalidTimeZone)
    } else {
        match wall_clock_in_zone(m.start_time@, m.timezone@) {
            None => Err(TimeError::InvalidTimestamp),
            Some(t) => if !supported_spec(t) {
                Err(TimeError::UnsupportedDate)
            } else {
                Ok(round_spec(t))
            },
        }
    }
}

/// What one meeting contributes to a run: nothing when the range filter is
/// on and its normalized time misses the window, its planned artifacts
/// otherwise.
pub open spec fn meeting_plan_spec(m: ZoomMeeting, now: LocalTime, days: int, filter: bool) -> Result<
    Seq<RecView>,
    TimeError,
> {
    match meeting_time_spec(m) {
        Err(e) => Err(e),
        Ok(t) => if filter && !(total_seconds_spec(t) > total_seconds_spec(now) - days * 86400) {
            Ok(Seq::empty())
        } else {
            Ok(plan_spec(t, m))
        },
    }
}

/// The whole planning pass over a meeting list, in order; the first
/// meeting that cannot be normalized aborts the pass with its error.
pub open spec fn collect_spec(ms: Seq<ZoomMeeting>, now: LocalTime, days: int, filter: bool) -> Result<
    Seq<RecView>,
    TimeError,
>
    decreases ms.len(),
{
    if ms.len() == 0 {
        Ok(Seq::empty())
    } else {
        match collect_spec(ms.drop_last(), now, days, filter) {
            Err(e) => Err(e),
            Ok(acc) => match meeting_plan_spec(ms.last(), now, days, filter) {
                Err(e) => Err(e),
                Ok(v) => Ok(acc + v),
            },
        }
    }
}

proof fn lemma_collect_err(ms: Seq<ZoomMeeting>, i: int, now: LocalTime, days: int, filter: bool)
    requires
        0 <= i < ms.len(),
        collect_spec(ms.take(i), now, days, filter) is Ok,
        meeting_plan_spec(ms[i], now, days, filter) is Err,
    ensures
        collect_spec(ms, now, days, filter) == Err::<Seq<RecView>, TimeError>(
            meeting_plan_spec(ms[i], now, days, filter)->Err_0,
        ),
    decreases ms.len(),
{
    if i == ms.len() - 1 {
        assert(ms.drop_last() =~= ms.take(i));
    } else {
        assert(ms.drop_last().take(i) =~= ms.take(i));
        assert(ms.drop_last()[i] == ms[i]);
        lemma_collect_err(ms.drop_last(), i, now, days, filter);
    }
}

/// Idempotence of the whole pipeline: planning one meeting listing yields
/// the same artifacts both times, and the first run leaves a file at every
/// planned key — so a second run over the same listing and the same output
/// root writes nothing (its manifest is empty) and the file set stays as
/// the first run left it.
pub proof fn lemma_pipeline_idempotent(
    ms: Seq<ZoomMeeting>,
    now: LocalTime,
    days: int,
    filter: bool,
    disk: Set<(Seq<char>, Seq<char>)>,
)
    requires
        collect_spec(ms, now, days, filter) is Ok,
    ensures
        manifest_spec(
            collect_spec(ms, now, days, filter)->Ok_0,
            disk_after(collect_spec(ms, now, days, filter)->Ok_0, disk),
        ).len() == 0,
        disk_after(
            collect_spec(ms, now, days, filter)->Ok_0,
            disk_after(collect_spec(ms, now, days, filter)->Ok_0, disk),
        ) =~= disk_after(collect_spec(ms, now, days, filter)->Ok_0, disk),
{
    crate::manifest::lemma_rerun_empty(collect_spec(ms, now, days, filter)->Ok_0, disk);
}

/// Normalize, filter and plan every meeting of a listing, in order: each
/// meeting's start instant is read in its own zone, rounded to the hour
/// within tolerance, dropped when the range filter is on and the rounded
/// time is not strictly newer than `now` minus `lookback_days` days, and
/// otherwise planned into one artifact per recording file. The first
/// meeting that cannot be normalized aborts the run with its error.
pub fn collect_recordings(
    meetings: &Vec<ZoomMeeting>,
    now: &LocalTime,
    lookback_days: i64,
    filter: bool,
) -> (r: Result<Recordings, TimeError>)
    requires
        now.wf(),
        lookback_days >= 0,
    ensures
        r matches Ok(rs) ==> collect_spec(meetings@, *now, lookback_days as int, filter)
            == Ok::<Seq<RecView>, TimeError>(recs_view(rs.recordings@)),
        r matches Err(e) ==> collect_spec(meetings@, *now, lookback_days as int, filter)
            == Err::<Seq<RecView>, TimeError>(e),
{
    let mut rlist = Recordings { recordings: Vec::new() };
    proof {
        assert(recs_view(rlist.recordings@) =~= Seq::<RecView>::empty());
    }
    let n = meetings.len();
    let mut i: usize = 0;
    while i < n
        invariant
            i <= n,
            n == meetings@.len(),
            now.wf(),
            lookback_days >= 0,
            collect_spec(meetings@.take(i as int), *now, lookback_days as int, filter)
                == Ok::<Seq<RecView>, TimeError>(recs_view(rlist.recordings@)),
        decreases n - i,
    {
        let m = &meetings[i];
        let ghost pre_views = recs_view(rlist.recordings@);
        match utc_to_zone_wall_clock(m.start_time.as_str(), m.timezone.as_str()) {
            Err(e) => {
                proof {
                    lemma_collect_err(meetings@, i as int, *now, lookback_days as int, filter);
                }
                return Err(e);
            },
            Ok(t) => {
                if !check_supported(&t) {
                    proof {
                        lemma_collect_err(meetings@, i as int, *now, lookback_days as int, filter);
                    }
                    return Err(TimeError::UnsupportedDate);
                }
                let mut mtime = t;
                round_time_to_hour(&mut mtime);
                if filter && !in_range(&mtime, now, lookback_days) {
                    proof {
                        assert(recs_view(rlist.recordings@) =~= pre_views + Seq::<
                            RecView,
                        >::empty());
                    }
                } else {
                    process_meeting(&mut rlist, m, &mtime);
                }
            },
        }
        proof {
            assert(meetings@.take(i + 1).drop_last() =~= meetings@.take(i as int));
            assert(meetings@.take(i + 1).last() == meetings@[i as int]);
        }
        i = i + 1;
    }
    proof {
        assert(meetings@.take(n as int) =~= meetings@);
    }
    Ok(rlist)
}

} // verus!
