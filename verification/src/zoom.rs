use vstd::prelude::*;
use crate::jsonio::{
    file_str_member, files_len, json_file_str, json_files_len, json_meeting_str,
    json_meetings_len, json_parses, json_wellformed, meeting_str_member, meetings_len, RawStr,
};

verus! {

/// One recording file of a meeting, as the remote listing reports it.
#[derive(Debug)]
pub struct ZoomRecordingFile {
    /// The file's kind (for example `MP4` or `CHAT`); case-insensitive.
    pub file_type: String,
    /// Where the file's bytes can be fetched from.
    pub download_url: String,
}

/// One cloud-recorded meeting, reduced to the fields this library reads.
#[derive(Debug)]
pub struct ZoomMeeting {
    /// The meeting's start instant, an RFC 3339 timestamp in UTC.
    pub start_time: String,
    /// The IANA name of the meeting's own time zone.
    pub timezone: String,
    /// The meeting's recording files, in the order the listing gave them.
    pub recording_files: Vec<ZoomRecordingFile>,
}

/// The ghost image of a recording file: its two fields as character sequences.
pub struct ZoomFileView {
    pub file_type: Seq<char>,
    pub download_url: Seq<char>,
}

impl View for ZoomRecordingFile {
    type V = ZoomFileView;

    open spec fn view(&self) -> ZoomFileView {
        ZoomFileView { file_type: self.file_type@, download_url: self.download_url@ }
    }
}

/// Why a meeting listing was rejected.
#[derive(Clone, Copy, PartialEq, Eq, Structural, Debug)]
pub enum ListingError {
    /// The body is not well-formed JSON.
    NotJson,
    /// The body is JSON, but not of the expected shape: an object with a
    /// `meetings` array of objects, each holding a `start_time` string, a
    /// `timezone` string, and a `recording_files` array of objects with
    /// `file_type` and `download_url` strings.
    WrongShape,
}

/// One recording file of the listing text has both of its string members.
pub open spec fn file_ok_spec(s: Seq<char>, i: int, j: int) -> bool {
    &&& json_file_str(s, i, j, "file_type"@) is Val
    &&& json_file_str(s, i, j, "download_url"@) is Val
}

/// The `i`-th meeting of the listing text has its two string members and a
/// `recording_files` array whose members all have their strings. Members
/// outside this partial shape play no part.
pub open spec fn meeting_ok_spec(s: Seq<char>, i: int) -> bool {
    &&& json_meeting_str(s, i, "start_time"@) is Val
    &&& json_meeting_str(s, i, "timezone"@) is Val
    &&& json_files_len(s, i) is Some
    &&& forall|j: int|
        0 <= j < json_files_len(s, i)->0 ==> #[trigger] file_ok_spec(s, i, j)
}

/// The listing text matches the partial shape the pipeline reads: a
/// `meetings` array, every meeting of which is well-shaped.
pub open spec fn listing_ok_spec(s: Seq<char>) -> bool {
    &&& json_meetings_len(s) is Some
    &&& forall|i: int| 0 <= i < json_meetings_len(s)->0 ==> #[trigger] meeting_ok_spec(s, i)
}

/// The `j`-th recording file of the decoded `i`-th meeting carries exactly
/// the listing's two string members.
pub open spec fn file_matches_spec(s: Seq<char>, i: int, j: int, f: ZoomRecordingFile) -> bool {
    &&& json_file_str(s, i, j, "file_type"@) matches RawStr::Val(t) && f.file_type@ == t@
    &&& json_file_str(s, i, j, "download_url"@) matches RawStr::Val(u) && f.download_url@ == u@
}

/// The decoded meeting `m` carries exactly the `i`-th listing entry's
/// members, its recording files in the listing's order.
pub open spec fn meeting_matches_spec(s: Seq<char>, i: int, m: ZoomMeeting) -> bool {
    &&& json_meeting_str(s, i, "start_time"@) matches RawStr::Val(t) && m.start_time@ == t@
    &&& json_meeting_str(s, i, "timezone"@) matches RawStr::Val(z) && m.timezone@ == z@
    &&& json_files_len(s, i) == Some(m.recording_files@.len() as int)
    &&& forall|j: int|
        0 <= j < m.recording_files@.len() ==> #[trigger] file_matches_spec(
            s,
            i,
            j,
            m.recording_files@[j],
        )
}

/// Read a meeting listing out of a response body, keeping only the fields
/// the pipeline uses and the listing's order. A body that is not JSON is
/// `NotJson`; a JSON body off the partial shape — and only such a body —
/// is `WrongShape`; otherwise the result holds exactly the listing's
/// meetings, in its order.
pub fn parse_meetings(body: &str) -> (r: Result<Vec<ZoomMeeting>, ListingError>)
    ensures
        r is Ok <==> (json_parses(body@) && listing_ok_spec(body@)),
        (r is Err && r->Err_0 == ListingError::NotJson) <==> !json_parses(body@),
        (r is Err && r->Err_0 == ListingError::WrongShape) <==> (json_parses(body@)
            && !listing_ok_spec(body@)),
        r matches Ok(ms) ==> {
            &&& json_meetings_len(body@) == Some(ms@.len() as int)
            &&& forall|i: int|
                0 <= i < ms@.len() ==> #[trigger] meeting_matches_spec(body@, i, ms@[i])
        },
{
    if !json_wellformed(body) {
        return Err(ListingError::NotJson);
    }
    let n = match meetings_len(body) {
        None => {
            proof {
                assert(!listing_ok_spec(body@));
            }
            return Err(ListingError::WrongShape);
        },
        Some(n) => n,
    };
    let mut out: Vec<ZoomMeeting> = Vec::new();
    let mut i: usize = 0;
    while i < n
        invariant
            i <= n,
            json_parses(body@),
            json_meetings_len(body@) == Some(n as int),
            out@.len() == i,
            forall|k: int| 0 <= k < i ==> #[trigger] meeting_ok_spec(body@, k),
            forall|k: int|
                0 <= k < i ==> #[trigger] meeting_matches_spec(body@, k, out@[k]),
        decreases n - i,
    {
        let start_time = match meeting_str_member(body, i, "start_time") {
            RawStr::Val(s) => s,
            _ => {
                proof {
                    if listing_ok_spec(body@) {
                        assert(meeting_ok_spec(body@, i as int));
                    }
                }
                return Err(ListingError::WrongShape);
            },
        };
        let timezone = match meeting_str_member(body, i, "timezone") {
            RawStr::Val(s) => s,
            _ => {
                proof {
                    if listing_ok_spec(body@) {
                        assert(meeting_ok_spec(body@, i as int));
                    }
                }
                return Err(ListingError::WrongShape);
            },
        };
        let m = match files_len(body, i) {
            None => {
                proof {
                    if listing_ok_spec(body@) {
                        assert(meeting_ok_spec(body@, i as int));
                    }
                }
                return Err(ListingError::WrongShape);
            },
            Some(m) => m,
        };
        let mut files: Vec<ZoomRecordingFile> = Vec::new();
        let mut j: usize = 0;
        while j < m
            invariant
                j <= m,
                i < n,
                json_parses(body@),
                json_meetings_len(body@) == Some(n as int),
                json_files_len(body@, i as int) == Some(m as int),
                files@.len() == j,
                forall|j2: int| 0 <= j2 < j ==> #[trigger] file_ok_spec(body@, i as int, j2),
                forall|j2: int|
                    0 <= j2 < j ==> #[trigger] file_matches_spec(
                        body@,
                        i as int,
                        j2,
                        files@[j2],
                    ),
            decreases m - j,
        {
            let file_type = match file_str_member(body, i, j, "file_type") {
                RawStr::Val(s) => s,
                _ => {
                    proof {
                        assert(!file_ok_spec(body@, i as int, j as int));
                        if meeting_ok_spec(body@, i as int) {
                            assert(file_ok_spec(body@, i as int, j as int));
                        }
                        if listing_ok_spec(body@) {
                            assert(meeting_ok_spec(body@, i as int));
                        }
                    }
                    return Err(ListingError::WrongShape);
                },
            };
            let download_url = match file_str_member(body, i, j, "download_url") {
                RawStr::Val(s) => s,
                _ => {
                    proof {
                        assert(!file_ok_spec(body@, i as int, j as int));
                        if meeting_ok_spec(body@, i as int) {
                            assert(file_ok_spec(body@, i as int, j as int));
                        }
                        if listing_ok_spec(body@) {
                            assert(meeting_ok_spec(body@, i as int));
                        }
                    }
                    return Err(ListingError::WrongShape);
                },
            };
            files.push(ZoomRecordingFile { file_type, download_url });
            j = j + 1;
        }
        out.push(ZoomMeeting { start_time, timezone, recording_files: files });
        proof {
            assert(meeting_ok_spec(body@, i as int));
            assert(meeting_matches_spec(body@, i as int, out@.last()));
        }
        i = i + 1;
    }
    proof {
        assert(listing_ok_spec(body@));
    }
    Ok(out)
}

} // verus!
