use vstd::prelude::*;

use crate::number::{lemma_format_i64_parses_back, parse_i64, spec_format_i64, spec_parse_i64};

verus! {

/// What the listing of multipart uploads says of one upload.
#[derive(Debug, Clone, PartialEq, Eq)]
pub struct UploadSummary {
    /// The object key, when the service sent one.
    pub key: Option<String>,
    /// When the upload was initiated, in milliseconds since the Unix epoch;
    /// `None` when the service sent no time or one that does not fit.
    pub initiated_millis: Option<i64>,
    /// The upload id, when the service sent one.
    pub upload_id: Option<String>,
}

/// One row of the listing of multipart uploads.
#[derive(Debug, Clone, PartialEq, Eq)]
pub struct UploadRow {
    /// One-based position in the listing.
    pub num: usize,
    /// The object key.
    pub key: String,
    /// The initiation time in milliseconds, which also identifies the upload.
    pub timestamp_id: i64,
}

/// Why uploads cannot be listed or picked.
#[derive(Debug, Clone, PartialEq, Eq, Structural)]
pub enum MultipartError {
    /// The bucket has no multipart uploads.
    NoUploads,
    /// An upload came without an initiation time.
    MissingTimestamp,
    /// An upload's initiation time lies outside the range of dates.
    TimestampOutOfRange,
    /// An upload came without a key.
    MissingKey,
    /// The timestamp id given is not a decimal `i64`.
    InvalidTimestampId,
}

/// Earliest millisecond timestamp `chrono` can represent: January 1 of
/// the year -262143, midnight UTC.
pub const MIN_CHRONO_MILLIS: i64 = -8334601228800000;

/// Latest millisecond timestamp `chrono` can represent: the last millisecond
/// of December 31 of the year 262142, UTC.
pub const MAX_CHRONO_MILLIS: i64 = 8210266876799999;

/// The milliseconds timestamp that comes back from turning `millis` into a
/// date and time: `millis` itself when it lies within `chrono`'s range,
/// `None` otherwise.
pub open spec fn local_roundtrip_millis(millis: i64) -> Option<i64> {
    if MIN_CHRONO_MILLIS <= millis <= MAX_CHRONO_MILLIS {
        Some(millis)
    } else {
        None
    }
}

/// Calls `chrono::DateTime::from_timestamp_millis`, converts the result
/// with `with_timezone(&chrono::Local)` and reads `timestamp_millis` back.
/// Trusted, as `chrono` documents and its source shows, to return `None`
/// exactly for the numbers outside the range of its dates, and otherwise the
/// number it was given: the round trip is exact and the time zone changes
/// only the offset kept beside the UTC time, not the timestamp.
#[verifier::external_body]
fn local_millis(millis: i64) -> (res: Option<i64>)
    ensures
        res == local_roundtrip_millis(millis),
{
    chrono::DateTime::from_timestamp_millis(millis).map(
        |t| t.with_timezone(&chrono::Local).timestamp_millis(),
    )
}

/// How the listing shows an initiation time: month, day, year, then the
/// time of day.
pub const LISTING_TIME_FORMAT: &'static str = "%b %d, %Y - %H:%M:%S";

/// Whether `text` is a rendering, in some machine's local time zone, of the
/// instant `millis` milliseconds after the Unix epoch with the `chrono`
/// format `pattern`. This ties a text to the instant and format it was made
/// from; which text comes depends on the machine's time zone.
pub uninterp spec fn local_time_rendering(millis: i64, pattern: Seq<char>, text: Seq<char>) -> bool;

/// Calls `chrono::DateTime::from_timestamp_millis`, converts the result
/// with `with_timezone(&chrono::Local)` and renders it with `format(pattern)`.
/// Trusted to give a text exactly for the numbers within `chrono`'s range,
/// as `from_timestamp_millis` does, and to give a rendering of that instant
/// in that format; which text it is is left unsaid, since it depends on the
/// machine's time zone. The pattern is the listing's, which `chrono` renders
/// without error.
#[verifier::external_body]
fn local_time_text(millis: i64, pattern: &str) -> (text: Option<String>)
    requires
        pattern@ == LISTING_TIME_FORMAT@,
    ensures
        text is Some <==> (MIN_CHRONO_MILLIS <= millis <= MAX_CHRONO_MILLIS),
        text matches Some(t) ==> local_time_rendering(millis, pattern@, t@),
{
    chrono::DateTime::from_timestamp_millis(millis).map(
        |t| t.with_timezone(&chrono::Local).format(pattern).to_string(),
    )
}

/// What became of an upload's initiation time: `None` when there was none,
/// `Some(None)` when it is out of range, `Some(Some(ms))` otherwise.
pub open spec fn spec_stamp(initiated: Option<i64>) -> Option<Option<i64>> {
    match initiated {
        None => None,
        Some(ms) => Some(local_roundtrip_millis(ms)),
    }
}

/// The initiation time of every upload, taken through local time.
pub fn local_stamps(uploads: &Vec<UploadSummary>) -> (stamps: Vec<Option<Option<i64>>>)
    ensures
        stamps@.len() == uploads@.len(),
        forall|i: int|
            0 <= i < uploads@.len() ==> #[trigger] stamps@[i] == spec_stamp(
                uploads@[i].initiated_millis,
            ),
{
    let mut stamps: Vec<Option<Option<i64>>> = Vec::new();
    let mut i: usize = 0;
    while i < uploads.len()
        invariant
            i <= uploads@.len(),
            stamps@.len() == i,
            forall|j: int|
                0 <= j < i ==> #[trigger] stamps@[j] == spec_stamp(uploads@[j].initiated_millis),
        decreases uploads@.len() - i,
    {
        let stamp = match uploads[i].initiated_millis {
            None => None,
            Some(ms) => Some(local_millis(ms)),
        };
        stamps.push(stamp);
        i = i + 1;
    }
    stamps
}

/// Whether `upload` has the key `key`.
pub open spec fn has_key(upload: UploadSummary, key: Seq<char>) -> bool {
    match upload.key {
        Some(k) => k@ == key,
        None => false,
    }
}

/// Picking the upload to abort among `uploads` with initiation times
/// `stamps`, looking from position `i` on: the first upload with the key
/// `key` whose time is the timestamp id `target` gives its upload id. Each
/// upload looked at must have a time in range, and the id must parse, or the
/// pick fails there.
pub open spec fn spec_pick_upload(
    uploads: Seq<UploadSummary>,
    stamps: Seq<Option<Option<i64>>>,
    key: Seq<char>,
    target: Option<i64>,
    i: int,
) -> Result<Option<String>, MultipartError>
    decreases uploads.len() - i,
{
    if i < 0 || i >= uploads.len() {
        Ok(None)
    } else {
        match stamps[i] {
            None => Err(MultipartError::MissingTimestamp),
            Some(None) => Err(MultipartError::TimestampOutOfRange),
            Some(Some(ms)) => match target {
                None => Err(MultipartError::InvalidTimestampId),
                Some(t) => if ms == t && has_key(uploads[i], key) {
                    Ok(uploads[i].upload_id)
                } else {
                    spec_pick_upload(uploads, stamps, key, target, i + 1)
                },
            },
        }
    }
}

/// The upload id of the first upload with key `key` whose initiation time,
/// in `stamps`, equals the timestamp id `timestamp_id`; `Ok(None)` when no
/// upload matches or the one that does came without an id.
pub fn pick_upload(
    uploads: &Vec<UploadSummary>,
    stamps: &Vec<Option<Option<i64>>>,
    key: &str,
    timestamp_id: &str,
) -> (res: Result<Option<String>, MultipartError>)
    requires
        stamps@.len() == uploads@.len(),
    ensures
        res == spec_pick_upload(uploads@, stamps@, key@, spec_parse_i64(timestamp_id@), 0),
{
    let target = parse_i64(timestamp_id);
    let wanted = key.to_owned();
    let n = uploads.len();
    let mut i: usize = 0;
    while i < n
        invariant
            n == uploads@.len(),
            stamps@.len() == n,
            i <= n,
            target == spec_parse_i64(timestamp_id@),
            wanted@ == key@,
            spec_pick_upload(uploads@, stamps@, key@, target, 0) == spec_pick_upload(
                uploads@,
                stamps@,
                key@,
                target,
                i as int,
            ),
        decreases n - i,
    {
        match stamps[i] {
            None => {
                return Err(MultipartError::MissingTimestamp);
            },
            Some(None) => {
                return Err(MultipartError::TimestampOutOfRange);
            },
            Some(Some(ms)) => match target {
                None => {
                    return Err(MultipartError::InvalidTimestampId);
                },
                Some(t) => {
                    if ms == t {
                        let same_key = match &uploads[i].key {
                            Some(k) => *k == wanted,
                            None => false,
                        };
                        if same_key {
                            return Ok(uploads[i].upload_id.clone());
                        }
                    }
                },
            },
        }
        i = i + 1;
    }
    Ok(None)
}

/// The upload id to abort when deleting the multipart upload with key `key`
/// and timestamp id `timestamp_id`, looking at the uploads in order.
pub fn upload_to_abort(uploads: &Vec<UploadSummary>, key: &str, timestamp_id: &str) -> (res: Result<Option<String>, MultipartError>)
    ensures
        res == spec_pick_upload(
            uploads@,
            Seq::new(uploads@.len(), |i: int| spec_stamp(uploads@[i].initiated_millis)),
            key@,
            spec_parse_i64(timestamp_id@),
            0,
        ),
{
    let stamps = local_stamps(uploads);
    proof {
        assert(stamps@ == Seq::new(
            uploads@.len(),
            |i: int| spec_stamp(uploads@[i].initiated_millis),
        ));
    }
    pick_upload(uploads, &stamps, key, timestamp_id)
}

/// Row `i` of the listing, or why it cannot be made.
pub open spec fn spec_row(upload: UploadSummary, stamp: Option<Option<i64>>, i: int) -> Result<UploadRow, MultipartError> {
    match stamp {
        None => Err(MultipartError::MissingTimestamp),
        Some(None) => Err(MultipartError::TimestampOutOfRange),
        Some(Some(ms)) => match upload.key {
            None => Err(MultipartError::MissingKey),
            Some(k) => Ok(UploadRow { num: (i + 1) as usize, key: k, timestamp_id: ms }),
        },
    }
}

/// The first failing row of the listing, if any.
pub open spec fn first_row_error(uploads: Seq<UploadSummary>, stamps: Seq<Option<Option<i64>>>, i: int) -> Option<MultipartError>
    decreases uploads.len() - i,
{
    if i < 0 || i >= uploads.len() {
        None
    } else {
        match spec_row(uploads[i], stamps[i], i) {
            Err(e) => Some(e),
            Ok(_) => first_row_error(uploads, stamps, i + 1),
        }
    }
}

/// Rows of the listing of `uploads` with initiation times `stamps`, numbered
/// from one; `NoUploads` when the service sent no list, otherwise the first
/// upload lacking a time in range or a key stops the listing.
pub fn listing_rows(uploads: &Option<Vec<UploadSummary>>, stamps: &Vec<Option<Option<i64>>>) -> (res: Result<Vec<UploadRow>, MultipartError>)
    requires
        uploads matches Some(u) ==> stamps@.len() == u@.len(),
    ensures
        uploads is None ==> res == Err::<Vec<UploadRow>, MultipartError>(MultipartError::NoUploads),
        uploads matches Some(u) ==> match first_row_error(u@, stamps@, 0) {
            Some(e) => res == Err::<Vec<UploadRow>, MultipartError>(e),
            None => (res matches Ok(rows) && rows@.len() == u@.len() && forall|i: int|
                0 <= i < rows@.len() ==> spec_row(u@[i], stamps@[i], i) == Ok::<UploadRow, MultipartError>(#[trigger] rows@[i])),
        },
{
    match uploads {
        None => Err(MultipartError::NoUploads),
        Some(list) => {
            let n = list.len();
            let mut rows: Vec<UploadRow> = Vec::new();
            let mut i: usize = 0;
            while i < n
                invariant
                    *uploads == Some(*list),
                    n == list@.len(),
                    stamps@.len() == n,
                    i <= n,
                    rows@.len() == i,
                    first_row_error(list@, stamps@, 0) == first_row_error(list@, stamps@, i as int),
                    forall|j: int|
                        0 <= j < i ==> spec_row(list@[j], stamps@[j], j) == Ok::<UploadRow, MultipartError>(#[trigger] rows@[j]),
                decreases n - i,
            {
                let row = match stamps[i] {
                    None => {
                        return Err(MultipartError::MissingTimestamp);
                    },
                    Some(None) => {
                        return Err(MultipartError::TimestampOutOfRange);
                    },
                    Some(Some(ms)) => match &list[i].key {
                        None => {
                            return Err(MultipartError::MissingKey);
                        },
                        Some(k) => UploadRow { num: i + 1, key: k.clone(), timestamp_id: ms },
                    },
                };
                rows.push(row);
                i = i + 1;
            }
            Ok(rows)
        },
    }
}

/// The rows listing `uploads`, their times taken through local time.
pub fn list_uploads(uploads: &Option<Vec<UploadSummary>>) -> (res: Result<Vec<UploadRow>, MultipartError>)
    ensures
        uploads is None ==> res == Err::<Vec<UploadRow>, MultipartError>(MultipartError::NoUploads),
        uploads matches Some(u) ==> {
            let stamps = Seq::new(u@.len(), |i: int| spec_stamp(u@[i].initiated_millis));
            match first_row_error(u@, stamps, 0) {
                Some(e) => res == Err::<Vec<UploadRow>, MultipartError>(e),
                None => (res matches Ok(rows) && rows@.len() == u@.len() && forall|i: int|
                    0 <= i < rows@.len() ==> spec_row(u@[i], stamps[i], i) == Ok::<UploadRow, MultipartError>(#[trigger] rows@[i])),
            }
        },
{
    match uploads {
        None => Err(MultipartError::NoUploads),
        Some(list) => {
            let stamps = local_stamps(list);
            proof {
                assert(stamps@ == Seq::new(
                    list@.len(),
                    |i: int| spec_stamp(list@[i].initiated_millis),
                ));
            }
            listing_rows(uploads, &stamps)
        },
    }
}

/// The rows listing `uploads`, as a mathematical function: `NoUploads`
/// without a list, the first failing row's error, or every row.
pub open spec fn spec_listing(uploads: Option<Seq<UploadSummary>>) -> Result<Seq<UploadRow>, MultipartError> {
    match uploads {
        None => Err(MultipartError::NoUploads),
        Some(u) => {
            let stamps = Seq::new(u.len(), |i: int| spec_stamp(u[i].initiated_millis));
            match first_row_error(u, stamps, 0) {
                Some(e) => Err(e),
                None => Ok(Seq::new(u.len(), |i: int| spec_row(u[i], stamps[i], i)->Ok_0)),
            }
        },
    }
}

/// The rows listing `uploads` together with each row's initiation time as
/// local date and time text in `LISTING_TIME_FORMAT`, one text per row,
/// rendered from that row's own timestamp.
pub fn list_uploads_with_times(uploads: &Option<Vec<UploadSummary>>) -> (res: Result<(Vec<UploadRow>, Vec<String>), MultipartError>)
    ensures
        ({
            let expected = spec_listing(
                match uploads {
                    Some(u) => Some(u@),
                    None => None,
                },
            );
            match res {
                Ok(pair) => expected == Ok::<Seq<UploadRow>, MultipartError>(pair.0@)
                    && pair.1@.len() == pair.0@.len() && forall|i: int|
                    0 <= i < pair.0@.len() ==> local_time_rendering(
                        #[trigger] pair.0@[i].timestamp_id,
                        LISTING_TIME_FORMAT@,
                        pair.1@[i]@,
                    ),
                Err(e) => expected == Err::<Seq<UploadRow>, MultipartError>(e),
            }
        }),
{
    let rows = match list_uploads(uploads) {
        Ok(rows) => rows,
        Err(e) => {
            return Err(e);
        },
    };
    let ghost u = uploads->0@;
    let ghost stamps = Seq::new(u.len(), |i: int| spec_stamp(u[i].initiated_millis));
    proof {
        assert(rows@ =~= Seq::new(u.len(), |i: int| spec_row(u[i], stamps[i], i)->Ok_0));
    }
    let mut times: Vec<String> = Vec::new();
    let n = rows.len();
    let mut i: usize = 0;
    while i < n
        invariant
            n == rows@.len(),
            n == u.len(),
            stamps.len() == u.len(),
            i <= n,
            times@.len() == i,
            forall|k: int|
                0 <= k < i ==> local_time_rendering(
                    #[trigger] rows@[k].timestamp_id,
                    LISTING_TIME_FORMAT@,
                    times@[k]@,
                ),
            forall|k: int|
                0 <= k < n ==> spec_row(u[k], stamps[k], k) == Ok::<UploadRow, MultipartError>(
                    #[trigger] rows@[k],
                ),
            forall|k: int|
                0 <= k < n ==> #[trigger] stamps[k] == spec_stamp(u[k].initiated_millis),
        decreases n - i,
    {
        proof {
            assert(spec_row(u[i as int], stamps[i as int], i as int) == Ok::<
                UploadRow,
                MultipartError,
            >(rows@[i as int]));
            assert(stamps[i as int] == spec_stamp(u[i as int].initiated_millis));
        }
        let text = match local_time_text(rows[i].timestamp_id, LISTING_TIME_FORMAT) {
            Some(t) => t,
            None => {
                proof {
                    assert(false);
                }
                String::new()
            },
        };
        times.push(text);
        i = i + 1;
    }
    Ok((rows, times))
}

/// Whether position `j` holds the first upload with time `ms` and key
/// `key`.
pub open spec fn first_match(
    uploads: Seq<UploadSummary>,
    stamps: Seq<Option<Option<i64>>>,
    key: Seq<char>,
    ms: i64,
    j: int,
) -> bool {
    &&& 0 <= j < stamps.len()
    &&& stamps[j] == Some(Some(ms))
    &&& has_key(uploads[j], key)
    &&& forall|k: int| 0 <= k < j ==> !(stamps[k] == Some(Some(ms)) && has_key(uploads[k], key))
}

/// Listing and deleting agree: when the uploads can be listed, deleting by
/// the key and the timestamp id printed in any row picks an upload, namely
/// the first one listed with that key and time, and never fails. The row's
/// timestamp id is printed by `format_i64`, which parses back to the same
/// number.
pub proof fn lemma_listed_row_picks_its_upload(
    uploads: Seq<UploadSummary>,
    stamps: Seq<Option<Option<i64>>>,
    i: int,
)
    requires
        stamps.len() == uploads.len(),
        first_row_error(uploads, stamps, 0) is None,
        0 <= i < uploads.len(),
    ensures
        ({
            let row = spec_row(uploads[i], stamps[i], i)->Ok_0;
            &&& spec_row(uploads[i], stamps[i], i) is Ok
            &&& spec_parse_i64(spec_format_i64(row.timestamp_id)) == Some(row.timestamp_id)
            &&& exists|j: int|
                first_match(uploads, stamps, row.key@, row.timestamp_id, j) && j <= i
                    && spec_pick_upload(
                    uploads,
                    stamps,
                    row.key@,
                    spec_parse_i64(spec_format_i64(row.timestamp_id)),
                    0,
                ) == Ok::<Option<String>, MultipartError>(uploads[j].upload_id)
        }),
{
    lemma_rows_are_complete(uploads, stamps, 0, i);
    assert(stamps[i] matches Some(Some(_)));
    assert(uploads[i].key is Some);
    let ms = stamps[i]->0->0;
    let key = uploads[i].key->0@;
    assert(has_key(uploads[i], key));
    let row = spec_row(uploads[i], stamps[i], i)->Ok_0;
    assert(row.key@ == key && row.timestamp_id == ms);
    lemma_format_i64_parses_back(ms);
    lemma_pick_from(uploads, stamps, key, ms, 0, i);
}

proof fn lemma_rows_are_complete(
    uploads: Seq<UploadSummary>,
    stamps: Seq<Option<Option<i64>>>,
    from: int,
    i: int,
)
    requires
        stamps.len() == uploads.len(),
        0 <= from <= i < uploads.len(),
        first_row_error(uploads, stamps, from) is None,
    ensures
        forall|k: int|
            from <= k <= i ==> (#[trigger] stamps[k] matches Some(Some(_)))
                && uploads[k].key is Some,
    decreases i - from,
{
    if from < i {
        lemma_rows_are_complete(uploads, stamps, from + 1, i);
    }
}

proof fn lemma_pick_from(
    uploads: Seq<UploadSummary>,
    stamps: Seq<Option<Option<i64>>>,
    key: Seq<char>,
    ms: i64,
    from: int,
    i: int,
)
    requires
        stamps.len() == uploads.len(),
        0 <= from <= i < uploads.len(),
        forall|k: int| from <= k <= i ==> (#[trigger] stamps[k] matches Some(Some(_))),
        stamps[i] == Some(Some(ms)),
        has_key(uploads[i], key),
        forall|k: int| 0 <= k < from ==> !(stamps[k] == Some(Some(ms)) && has_key(uploads[k], key)),
    ensures
        exists|j: int|
            first_match(uploads, stamps, key, ms, j) && j <= i && spec_pick_upload(
                uploads,
                stamps,
                key,
                Some(ms),
                from,
            ) == Ok::<Option<String>, MultipartError>(uploads[j].upload_id),
    decreases i - from,
{
    if stamps[from] == Some(Some(ms)) && has_key(uploads[from], key) {
        assert(first_match(uploads, stamps, key, ms, from));
    } else {
        assert(stamps[from] matches Some(Some(_)));
        lemma_pick_from(uploads, stamps, key, ms, from + 1, i);
    }
}

} // verus!
