use vstd::prelude::*;
use vstd::string::StringExecFns;
use crate::fmt::{date_key, date_key_spec, lower_seq, time_key, time_key_spec};
use crate::time::LocalTime;
use crate::zoom::ZoomMeeting;

verus! {

/// One planned artifact: the file name to write under the date directory,
/// and the remote location of its bytes.
#[derive(Debug)]
pub struct RecordingFile {
    pub outfile: String,
    pub url: String,
}

/// One planned recording artifact, keyed by the meeting's date and
/// rounded time.
#[derive(Debug)]
pub struct Recording {
    pub date: String,
    pub time: String,
    pub file: RecordingFile,
}

/// The artifacts planned (or newly written) in one run, in planning order.
#[derive(Debug)]
pub struct Recordings {
    pub recordings: Vec<Recording>,
}

/// The ghost image of a planned recording: its fields as character sequences.
#[verifier::ext_equal]
pub struct RecView {
    pub date: Seq<char>,
    pub time: Seq<char>,
    pub outfile: Seq<char>,
    pub url: Seq<char>,
}

impl View for Recording {
    type V = RecView;

    open spec fn view(&self) -> RecView {
        RecView {
            date: self.date@,
            time: self.time@,
            outfile: self.file.outfile@,
            url: self.file.url@,
        }
    }
}

pub open spec fn recs_view(v: Seq<Recording>) -> Seq<RecView> {
    v.map(|i: int, r: Recording| r@)
}

/// The planned file name for one recording file: the rounded `HH.MM` time,
/// a dot, and the lower-cased file type as the extension.
pub open spec fn outfile_spec(t: LocalTime, file_type: Seq<char>) -> Seq<char> {
    time_key_spec(t) + seq!['.'] + lower_seq(file_type)
}

/// What planning one meeting at local time `t` yields: one artifact per
/// recording file, in the listing's order.
pub open spec fn plan_spec(t: LocalTime, m: ZoomMeeting) -> Seq<RecView> {
    m.recording_files@.map(
        |i: int, f: crate::zoom::ZoomRecordingFile|
            RecView {
                date: date_key_spec(t),
                time: time_key_spec(t),
                outfile: outfile_spec(t, f.file_type@),
                url: f.download_url@,
            },
    )
}

/// Plan one meeting's artifacts and append them to the running list:
/// one entry per recording file, named by the meeting's date and rounded
/// time with the lower-cased file type as extension.
pub fn process_meeting(rlist: &mut Recordings, meeting: &ZoomMeeting, mtime: &LocalTime)
    requires
        mtime.wf(),
    ensures
        recs_view(final(rlist).recordings@) == recs_view(old(rlist).recordings@) + plan_spec(
            *mtime,
            *meeting,
        ),
{
    let ghost old_recs = rlist.recordings@;
    let date = date_key(mtime);
    let mut idx: usize = 0;
    while idx < meeting.recording_files.len()
        invariant
            idx <= meeting.recording_files@.len(),
            mtime.wf(),
            date@ == date_key_spec(*mtime),
            recs_view(rlist.recordings@) =~= recs_view(old_recs) + plan_spec(
                *mtime,
                *meeting,
            ).take(idx as int),
        decreases meeting.recording_files@.len() - idx,
    {
        let time = time_key(mtime);
        let mut outfile = time.clone();
        crate::fmt::push_char(&mut outfile, '.');
        let low = crate::fmt::to_ascii_lower(meeting.recording_files[idx].file_type.as_str());
        outfile.append(low.as_str());
        let rec = Recording {
            time,
            date: date.clone(),
            file: RecordingFile { outfile, url: meeting.recording_files[idx].download_url.clone() },
        };
        let ghost prev = rlist.recordings@;
        rlist.recordings.push(rec);
        proof {
            let cur = rlist.recordings@;
            assert(cur.last()@ =~~= plan_spec(*mtime, *meeting)[idx as int]);
            assert(recs_view(cur) =~~= recs_view(prev).push(cur.last()@));
            assert(plan_spec(*mtime, *meeting).take(idx + 1) =~~= plan_spec(
                *mtime,
                *meeting,
            ).take(idx as int).push(plan_spec(*mtime, *meeting)[idx as int]));
            assert(recs_view(cur) =~~= recs_view(old_recs) + plan_spec(
                *mtime,
                *meeting,
            ).take(idx + 1));
        }
        idx = idx + 1;
    }
    proof {
        assert(plan_spec(*mtime, *meeting).take(meeting.recording_files@.len() as int) =~= plan_spec(
            *mtime,
            *meeting,
        ));
        assert(recs_view(rlist.recordings@) =~= recs_view(old_recs) + plan_spec(*mtime, *meeting));
    }
}

/// Planning is a pure function of its inputs: equal meetings and equal
/// normalized times always yield the very same artifact sequence, in the
/// order of the meeting's recording files.
pub proof fn lemma_plan_deterministic(t1: LocalTime, t2: LocalTime, m1: ZoomMeeting, m2: ZoomMeeting)
    requires
        t1 == t2,
        m1.recording_files@ == m2.recording_files@,
    ensures
        plan_spec(t1, m1) == plan_spec(t2, m2),
        plan_spec(t1, m1).len() == m1.recording_files@.len(),
{
}

} // verus!
