use vstd::prelude::*;
use vstd::string::StringExecFns;
use crate::fmt::{date_key, date_key_spec, push_char};
use crate::plan::{recs_view, RecView, Recordings};
use crate::time::LocalTime;

verus! {

/// How a run delivers artifacts, and so how a notification line renders:
/// a local path the recipient can open, or the remote location of a file
/// that was only planned and reported.
#[derive(Clone, Copy, PartialEq, Eq, Structural, Debug)]
pub enum DeliveryMode {
    Local,
    Remote,
}

/// The notification subject: today's date and a fixed tag line.
pub open spec fn subject_spec(today: LocalTime) -> Seq<char> {
    date_key_spec(today) + ": new Zoom recordings"@
}

/// One body line for one newly written artifact.
pub open spec fn line_spec(r: RecView, output_dir: Seq<char>, mode: DeliveryMode) -> Seq<char> {
    match mode {
        DeliveryMode::Local => output_dir + seq!['/'] + r.date + seq!['/'] + r.outfile
            + seq!['\n'],
        DeliveryMode::Remote => r.date + seq!['/'] + r.outfile + ": "@ + r.url + seq!['\n'],
    }
}

/// The body lines for a whole manifest, in manifest order.
pub open spec fn lines_spec(rs: Seq<RecView>, output_dir: Seq<char>, mode: DeliveryMode) -> Seq<
    char,
>
    decreases rs.len(),
{
    if rs.len() == 0 {
        Seq::empty()
    } else {
        lines_spec(rs.drop_last(), output_dir, mode) + line_spec(rs.last(), output_dir, mode)
    }
}

/// The notification body: a fixed heading, then one line per artifact.
pub open spec fn body_spec(rs: Seq<RecView>, output_dir: Seq<char>, mode: DeliveryMode) -> Seq<
    char,
> {
    "Zoom recordings are available:\n\n"@ + lines_spec(rs, output_dir, mode)
}

/// Build the notification subject and body for a manifest.
pub fn compose(manifest: &Recordings, output_dir: &str, mode: DeliveryMode, today: &LocalTime) -> (r:
    (String, String))
    requires
        today.wf(),
    ensures
        r.0@ == subject_spec(*today),
        r.1@ == body_spec(recs_view(manifest.recordings@), output_dir@, mode),
{
    let ghost views = recs_view(manifest.recordings@);
    let mut subject = date_key(today);
    subject.append(": new Zoom recordings");
    let mut body = String::from_str("Zoom recordings are available:\n\n");
    let n = manifest.recordings.len();
    let mut i: usize = 0;
    while i < n
        invariant
            i <= n,
            n == manifest.recordings@.len(),
            views == recs_view(manifest.recordings@),
            body@ == "Zoom recordings are available:\n\n"@ + lines_spec(
                views.take(i as int),
                output_dir@,
                mode,
            ),
        decreases n - i,
    {
        let rec = &manifest.recordings[i];
        match mode {
            DeliveryMode::Local => {
                body.append(output_dir);
                push_char(&mut body, '/');
                body.append(rec.date.as_str());
                push_char(&mut body, '/');
                body.append(rec.file.outfile.as_str());
                push_char(&mut body, '\n');
            },
            DeliveryMode::Remote => {
                body.append(rec.date.as_str());
                push_char(&mut body, '/');
                body.append(rec.file.outfile.as_str());
                body.append(": ");
                body.append(rec.file.url.as_str());
                push_char(&mut body, '\n');
            },
        }
        proof {
            assert(views.take(i + 1).drop_last() =~= views.take(i as int));
            assert(views.take(i + 1).last() == views[i as int]);
            assert(body@ =~= "Zoom recordings are available:\n\n"@ + lines_spec(
                views.take(i + 1),
                output_dir@,
                mode,
            ));
        }
        i = i + 1;
    }
    proof {
        assert(views.take(n as int) =~= views);
    }
    (subject, body)
}

/// The notification decision for a run: a notification exists exactly when
/// the run newly wrote at least one artifact and a recipient is configured;
/// an empty manifest, or no recipient, means nothing is composed or sent.
pub fn plan_notification(
    manifest: &Recordings,
    notify: &Option<String>,
    output_dir: &str,
    mode: DeliveryMode,
    today: &LocalTime,
) -> (r: Option<(String, String)>)
    requires
        today.wf(),
    ensures
        r is Some <==> (manifest.recordings@.len() > 0 && notify is Some),
        r matches Some(sb) ==> sb.0@ == subject_spec(*today) && sb.1@ == body_spec(
            recs_view(manifest.recordings@),
            output_dir@,
            mode,
        ),
{
    if manifest.recordings.len() > 0 && notify.is_some() {
        Some(compose(manifest, output_dir, mode, today))
    } else {
        None
    }
}

} // verus!
