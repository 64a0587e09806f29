use zoom_lomax::manifest::build_manifest;
use zoom_lomax::notify::{compose, plan_notification, DeliveryMode};
use zoom_lomax::pipeline::collect_recordings;
use zoom_lomax::plan::{process_meeting, Recording, RecordingFile, Recordings};
use zoom_lomax::time::{LocalTime, TimeError};
use zoom_lomax::zoom::{parse_meetings, ListingError, ZoomMeeting, ZoomRecordingFile};

fn at(year: i32, month: u8, day: u8, hour: u8, minute: u8, second: u8) -> LocalTime {
    LocalTime { year, month, day, hour, minute, second }
}

fn meeting(start_time: &str, timezone: &str, files: &[(&str, &str)]) -> ZoomMeeting {
    ZoomMeeting {
        start_time: start_time.to_string(),
        timezone: timezone.to_string(),
        recording_files: files
            .iter()
            .map(|(t, u)| ZoomRecordingFile {
                file_type: t.to_string(),
                download_url: u.to_string(),
            })
            .collect(),
    }
}

#[test]
fn planning_names_files_by_rounded_time_and_folded_extension() {
    let m = meeting("ignored", "ignored", &[("MP4", "https://x/a"), ("CHAT", "https://x/b")]);
    let mut rlist = Recordings { recordings: Vec::new() };
    let mtime = at(2024, 1, 9, 10, 0, 0);
    process_meeting(&mut rlist, &m, &mtime);
    assert_eq!(rlist.recordings.len(), 2);
    assert_eq!(rlist.recordings[0].date, "2024-01-09");
    assert_eq!(rlist.recordings[0].time, "10.00");
    assert_eq!(rlist.recordings[0].file.outfile, "10.00.mp4");
    assert_eq!(rlist.recordings[0].file.url, "https://x/a");
    assert_eq!(rlist.recordings[1].file.outfile, "10.00.chat");
    assert_eq!(rlist.recordings[1].file.url, "https://x/b");
}

#[test]
fn planning_truncates_residual_seconds() {
    let m = meeting("ignored", "ignored", &[("MP4", "https://x/a")]);
    let mut rlist = Recordings { recordings: Vec::new() };
    process_meeting(&mut rlist, &m, &at(2024, 1, 9, 10, 30, 45));
    assert_eq!(rlist.recordings[0].time, "10.30");
    assert_eq!(rlist.recordings[0].file.outfile, "10.30.mp4");
}

#[test]
fn planning_is_deterministic() {
    let m = meeting("ignored", "ignored", &[("MP4", "https://x/a"), ("M4A", "https://x/b")]);
    let mtime = at(2024, 1, 9, 10, 0, 0);
    let mut first = Recordings { recordings: Vec::new() };
    process_meeting(&mut first, &m, &mtime);
    let mut second = Recordings { recordings: Vec::new() };
    process_meeting(&mut second, &m, &mtime);
    assert_eq!(first.recordings.len(), second.recordings.len());
    for (a, b) in first.recordings.iter().zip(second.recordings.iter()) {
        assert_eq!(a.date, b.date);
        assert_eq!(a.time, b.time);
        assert_eq!(a.file.outfile, b.file.outfile);
        assert_eq!(a.file.url, b.file.url);
    }
}

#[test]
fn collecting_normalizes_into_the_meeting_zone() {
    let meetings = vec![meeting(
        "2024-01-09T16:58:30Z",
        "America/New_York",
        &[("MP4", "https://zoom.example/rec/1")],
    )];
    let rlist = collect_recordings(&meetings, &at(2024, 1, 10, 0, 0, 0), 30, true).unwrap();
    assert_eq!(rlist.recordings.len(), 1);
    assert_eq!(rlist.recordings[0].date, "2024-01-09");
    assert_eq!(rlist.recordings[0].time, "12.00");
    assert_eq!(rlist.recordings[0].file.outfile, "12.00.mp4");
}

#[test]
fn collecting_filters_old_meetings() {
    let meetings = vec![
        meeting("2024-01-05T10:02:00Z", "Etc/UTC", &[("MP4", "https://x/old")]),
        meeting("2024-01-09T10:02:00Z", "Etc/UTC", &[("MP4", "https://x/new")]),
    ];
    let now = at(2024, 1, 10, 0, 0, 0);
    let filtered = collect_recordings(&meetings, &now, 1, true).unwrap();
    assert_eq!(filtered.recordings.len(), 1);
    assert_eq!(filtered.recordings[0].file.url, "https://x/new");
    let unfiltered = collect_recordings(&meetings, &now, 1, false).unwrap();
    assert_eq!(unfiltered.recordings.len(), 2);
}

#[test]
fn collecting_rejects_bad_zone_and_bad_timestamp() {
    let now = at(2024, 1, 10, 0, 0, 0);
    let bad_zone = vec![meeting("2024-01-09T10:00:00Z", "Mars/Olympus", &[])];
    assert_eq!(collect_recordings(&bad_zone, &now, 1, true).unwrap_err(), TimeError::InvalidTimeZone);
    let bad_ts = vec![meeting("yesterday about noon", "Etc/UTC", &[])];
    assert_eq!(collect_recordings(&bad_ts, &now, 1, true).unwrap_err(), TimeError::InvalidTimestamp);
}

fn rec(date: &str, outfile: &str, url: &str) -> Recording {
    Recording {
        date: date.to_string(),
        time: "10.00".to_string(),
        file: RecordingFile { outfile: outfile.to_string(), url: url.to_string() },
    }
}

#[test]
fn manifest_skips_pre_existing_and_duplicate_artifacts() {
    let rlist = Recordings {
        recordings: vec![
            rec("2024-01-09", "10.00.mp4", "https://x/a"),
            rec("2024-01-09", "10.00.mp4", "https://x/b"),
            rec("2024-01-09", "10.00.chat", "https://x/c"),
        ],
    };
    let m = build_manifest(&rlist, &vec![false, false, false]);
    assert_eq!(m.recordings.len(), 2);
    assert_eq!(m.recordings[0].file.url, "https://x/a");
    assert_eq!(m.recordings[1].file.url, "https://x/c");
    let n = build_manifest(&rlist, &vec![true, true, false]);
    assert_eq!(n.recordings.len(), 1);
    assert_eq!(n.recordings[0].file.url, "https://x/c");
}

#[test]
fn second_run_writes_nothing() {
    let rlist = Recordings {
        recordings: vec![
            rec("2024-01-09", "10.00.mp4", "https://x/a"),
            rec("2024-01-09", "11.00.mp4", "https://x/b"),
        ],
    };
    let first = build_manifest(&rlist, &vec![false, false]);
    assert_eq!(first.recordings.len(), 2);
    let second = build_manifest(&rlist, &vec![true, true]);
    assert_eq!(second.recordings.len(), 0);
}

#[test]
fn composing_renders_local_and_remote_lines() {
    let manifest = Recordings {
        recordings: vec![
            rec("2024-01-09", "10.00.mp4", "https://x/a"),
            rec("2024-01-10", "11.00.chat", "https://x/b"),
        ],
    };
    let today = at(2024, 1, 10, 8, 0, 0);
    let (subject, body) = compose(&manifest, "/home/me/dir", DeliveryMode::Local, &today);
    assert_eq!(subject, "2024-01-10: new Zoom recordings");
    assert_eq!(
        body,
        "Zoom recordings are available:\n\n/home/me/dir/2024-01-09/10.00.mp4\n/home/me/dir/2024-01-10/11.00.chat\n"
    );
    let (_, remote_body) = compose(&manifest, "/home/me/dir", DeliveryMode::Remote, &today);
    assert_eq!(
        remote_body,
        "Zoom recordings are available:\n\n2024-01-09/10.00.mp4: https://x/a\n2024-01-10/11.00.chat: https://x/b\n"
    );
}

#[test]
fn notification_only_for_new_artifacts_and_a_recipient() {
    let today = at(2024, 1, 10, 8, 0, 0);
    let empty = Recordings { recordings: vec![] };
    let full = Recordings { recordings: vec![rec("2024-01-09", "10.00.mp4", "https://x/a")] };
    let who = Some("a@b.com".to_string());
    assert!(plan_notification(&empty, &who, "/d", DeliveryMode::Local, &today).is_none());
    assert!(plan_notification(&full, &None, "/d", DeliveryMode::Local, &today).is_none());
    assert!(plan_notification(&empty, &None, "/d", DeliveryMode::Local, &today).is_none());
    let sb = plan_notification(&full, &who, "/d", DeliveryMode::Local, &today).unwrap();
    assert_eq!(sb.0, "2024-01-10: new Zoom recordings");
}

#[test]
fn listing_parses_the_fields_the_pipeline_uses() {
    let body = r#"{
        "page_size": 30,
        "meetings": [
            {
                "uuid": "abc",
                "start_time": "2024-01-09T16:58:30Z",
                "timezone": "America/New_York",
                "recording_files": [
                    {"file_type": "MP4", "download_url": "https://x/a", "status": "completed"},
                    {"file_type": "CHAT", "download_url": "https://x/b"}
                ]
            }
        ]
    }"#;
    let ms = parse_meetings(body).unwrap();
    assert_eq!(ms.len(), 1);
    assert_eq!(ms[0].start_time, "2024-01-09T16:58:30Z");
    assert_eq!(ms[0].timezone, "America/New_York");
    assert_eq!(ms[0].recording_files.len(), 2);
    assert_eq!(ms[0].recording_files[0].file_type, "MP4");
    assert_eq!(ms[0].recording_files[1].download_url, "https://x/b");
}

#[test]
fn listing_rejects_bad_bodies() {
    assert_eq!(parse_meetings("not json").unwrap_err(), ListingError::NotJson);
    assert_eq!(parse_meetings("{}").unwrap_err(), ListingError::WrongShape);
    assert_eq!(parse_meetings(r#"{"meetings": 3}"#).unwrap_err(), ListingError::WrongShape);
    assert_eq!(
        parse_meetings(r#"{"meetings": [{"start_time": "t"}]}"#).unwrap_err(),
        ListingError::WrongShape
    );
    assert_eq!(
        parse_meetings(
            r#"{"meetings": [{"start_time": "t", "timezone": "z", "recording_files": [{}]}]}"#
        )
        .unwrap_err(),
        ListingError::WrongShape
    );
}
