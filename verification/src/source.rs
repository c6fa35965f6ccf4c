use vstd::prelude::*;

use crate::text::{dec_str_of, u64_to_string, contains_seq, contains_sub, lower_of, to_lowercase};

verus! {

/// The time window an analysis or ingestion covers.
#[derive(Clone, Copy, PartialEq, Eq, Structural, Debug)]
pub enum TimeRange {
    Daily,
    Weekly,
    Monthly,
    Yearly,
    AllTime,
}

impl TimeRange {
    /// The SQL condition selecting this window's frames.
    pub fn to_sql_filter(&self) -> (r: String)
        ensures
            *self is Daily ==> r@ == "f.timestamp > datetime('now', '-1 day')"@,
            *self is Weekly ==> r@ == "f.timestamp > datetime('now', '-7 days')"@,
            *self is Monthly ==> r@ == "f.timestamp > datetime('now', '-30 days')"@,
            *self is Yearly ==> r@ == "f.timestamp > datetime('now', '-1 year')"@,
            *self is AllTime ==> r@ == "1=1"@,
    {
        match self {
            TimeRange::Daily => String::from_str("f.timestamp > datetime('now', '-1 day')"),
            TimeRange::Weekly => String::from_str("f.timestamp > datetime('now', '-7 days')"),
            TimeRange::Monthly => String::from_str("f.timestamp > datetime('now', '-30 days')"),
            TimeRange::Yearly => String::from_str("f.timestamp > datetime('now', '-1 year')"),
            TimeRange::AllTime => String::from_str("1=1"),
        }
    }

    /// The window's display name.
    pub fn to_string(&self) -> (r: &'static str)
        ensures
            *self is Daily ==> r@ == "daily"@,
            *self is Weekly ==> r@ == "weekly"@,
            *self is Monthly ==> r@ == "monthly"@,
            *self is Yearly ==> r@ == "yearly"@,
            *self is AllTime ==> r@ == "all time"@,
    {
        match self {
            TimeRange::Daily => "daily",
            TimeRange::Weekly => "weekly",
            TimeRange::Monthly => "monthly",
            TimeRange::Yearly => "yearly",
            TimeRange::AllTime => "all time",
        }
    }
}

/// Progress of a running export.
pub struct ExportProgress {
    pub total_items: u64,
    pub items_exported: u64,
    pub current_offset: u64,
    pub last_export_time: u64,
    pub is_complete: bool,
    pub batch_number: u32,
}

/// Durable state of the incremental export.
pub struct ExportState {
    pub last_offset: u64,
    pub total_items_known: u64,
    pub last_export_timestamp: u64,
    pub batch_number: u32,
    pub is_first_run: bool,
}

/// The fresh state used before any export has run, and whenever the
/// stored state cannot be read.
pub fn initial_export_state() -> (s: ExportState)
    ensures
        s.last_offset == 0,
        s.total_items_known == 0,
        s.last_export_timestamp == 0,
        s.batch_number == 1,
        s.is_first_run,
{
    ExportState {
        last_offset: 0,
        total_items_known: 0,
        last_export_timestamp: 0,
        batch_number: 1,
        is_first_run: true,
    }
}

/// Metadata describing one export.
pub struct ExportMetadata {
    pub export_date: String,
    pub start_date: String,
    pub end_date: String,
    pub total_items: usize,
}

/// Paging information of a capture-store search response.
pub struct Pagination {
    pub limit: u64,
    pub offset: u64,
    pub total: u64,
}

/// Whether a paged fetch has more pages: the next page starts before the
/// reported total.
pub fn fetch_has_more(p: &Pagination) -> (r: bool)
    ensures
        r == (p.offset + p.limit < p.total),
{
    p.limit < p.total && p.offset < p.total - p.limit
}

/// The bucket a fetched feed item is filed under, by its content type.
#[derive(Clone, Copy, PartialEq, Eq, Structural, Debug)]
pub enum ItemKind {
    Ocr,
    Audio,
    Ui,
    Other,
}

/// File a feed item by its content type, case-insensitively; anything
/// unrecognized is kept only in the raw list.
pub fn classify_item(content_type: &str) -> (r: ItemKind)
    ensures
        lower_of(content_type@) == "ocr"@ ==> r is Ocr,
        lower_of(content_type@) == "audio"@ ==> r is Audio,
        lower_of(content_type@) == "ui"@ ==> r is Ui,
        lower_of(content_type@) != "ocr"@ && lower_of(content_type@) != "audio"@
            && lower_of(content_type@) != "ui"@ ==> r is Other,
{
    proof {
        reveal_strlit("ocr");
        reveal_strlit("audio");
        reveal_strlit("ui");
        assert(("ocr"@).len() == 3);
        assert(("audio"@).len() == 5);
        assert(("ui"@).len() == 2);
    }
    let lowered = to_lowercase(content_type);
    if crate::text::str_eq(lowered.as_str(), "ocr") {
        ItemKind::Ocr
    } else if crate::text::str_eq(lowered.as_str(), "audio") {
        ItemKind::Audio
    } else if crate::text::str_eq(lowered.as_str(), "ui") {
        ItemKind::Ui
    } else {
        ItemKind::Other
    }
}

/// The state file's path under a given desktop directory.
pub fn get_state_file_path(desktop_path: &str) -> (r: String)
    ensures
        r@ == desktop_path@ + "/project one test/export_state.json"@,
{
    let mut r = String::from_str(desktop_path);
    r.append("/project one test/export_state.json");
    r
}

/// Whether a time filter asks for aggregated time-usage data.
pub fn is_time_usage_query(time_filter: &str) -> (r: bool)
    ensures
        r == (contains_seq(lower_of(time_filter@), "month"@)
            || contains_seq(lower_of(time_filter@), "time"@)
            || contains_seq(lower_of(time_filter@), "usage"@)),
{
    let lowered = to_lowercase(time_filter);
    contains_sub(lowered.as_str(), "month") || contains_sub(lowered.as_str(), "time")
        || contains_sub(lowered.as_str(), "usage")
}

/// The aggregated time-usage query over a time filter.
pub open spec fn time_usage_sql(time_filter: Seq<char>) -> Seq<char> {
    "SELECT f.app_name, COUNT(*) as frame_count, MIN(f.timestamp) as first_seen, MAX(f.timestamp) as last_seen, ROUND((JULIANDAY(MAX(f.timestamp)) - JULIANDAY(MIN(f.timestamp))) * 24 * 60, 2) as total_span_minutes, GROUP_CONCAT(DISTINCT f.window_name) as window_names FROM frames f WHERE "@
        + time_filter + " GROUP BY f.app_name ORDER BY frame_count DESC LIMIT 50;"@
}

/// The detailed per-frame query over a time filter.
pub open spec fn detail_sql(time_filter: Seq<char>) -> Seq<char> {
    "SELECT f.id AS frame_id, f.timestamp, f.name AS video_file, f.window_name, f.app_name, f.browser_url, ac.file_path AS audio_file, at.transcription, at.device, at.is_input_device, at.transcription_engine, at.start_time, at.end_time, o.text AS ocr_text, o.text_length AS ocr_text_length FROM frames f LEFT JOIN audio_chunks ac ON f.video_chunk_id = ac.id LEFT JOIN audio_transcriptions at ON at.audio_chunk_id = ac.id LEFT JOIN ocr_text o ON o.frame_id = f.id WHERE "@
        + time_filter + " ORDER BY f.timestamp DESC LIMIT 1000;"@
}

/// Build the SQL sent for an ingestion window: the aggregated time-usage
/// form when the filter asks about time or usage, else the detailed
/// per-frame form.
pub fn build_ingest_sql(time_filter: &str) -> (r: String)
    ensures
        (contains_seq(lower_of(time_filter@), "month"@)
            || contains_seq(lower_of(time_filter@), "time"@)
            || contains_seq(lower_of(time_filter@), "usage"@))
            ==> r@ == time_usage_sql(time_filter@),
        !(contains_seq(lower_of(time_filter@), "month"@)
            || contains_seq(lower_of(time_filter@), "time"@)
            || contains_seq(lower_of(time_filter@), "usage"@))
            ==> r@ == detail_sql(time_filter@),
{
    if is_time_usage_query(time_filter) {
        let mut r = String::from_str("SELECT f.app_name, COUNT(*) as frame_count, MIN(f.timestamp) as first_seen, MAX(f.timestamp) as last_seen, ROUND((JULIANDAY(MAX(f.timestamp)) - JULIANDAY(MIN(f.timestamp))) * 24 * 60, 2) as total_span_minutes, GROUP_CONCAT(DISTINCT f.window_name) as window_names FROM frames f WHERE ");
        r.append(time_filter);
        r.append(" GROUP BY f.app_name ORDER BY frame_count DESC LIMIT 50;");
        r
    } else {
        let mut r = String::from_str("SELECT f.id AS frame_id, f.timestamp, f.name AS video_file, f.window_name, f.app_name, f.browser_url, ac.file_path AS audio_file, at.transcription, at.device, at.is_input_device, at.transcription_engine, at.start_time, at.end_time, o.text AS ocr_text, o.text_length AS ocr_text_length FROM frames f LEFT JOIN audio_chunks ac ON f.video_chunk_id = ac.id LEFT JOIN audio_transcriptions at ON at.audio_chunk_id = ac.id LEFT JOIN ocr_text o ON o.frame_id = f.id WHERE ");
        r.append(time_filter);
        r.append(" ORDER BY f.timestamp DESC LIMIT 1000;");
        r
    }
}

/// The time condition of a pure statistical analysis: the given bounds,
/// or the last day when none are given.
pub fn build_analysis_condition(time_range: &Option<(String, String)>) -> (r: String)
    ensures
        match time_range {
            Some(b) => r@ == "f.timestamp >= datetime('"@ + b.0@ + "') AND f.timestamp <= datetime('"@
                + b.1@ + "')"@,
            None => r@ == "f.timestamp > datetime('now', '-1 day')"@,
        },
{
    match time_range {
        Some(b) => {
            let mut r = String::from_str("f.timestamp >= datetime('");
            r.append(b.0.as_str());
            r.append("') AND f.timestamp <= datetime('");
            r.append(b.1.as_str());
            r.append("')");
            r
        },
        None => String::from_str("f.timestamp > datetime('now', '-1 day')"),
    }
}

/// The search URL of one page of the capture store's feed, with the
/// optional filters appended in their fixed order.
pub open spec fn search_url(
    limit: u64,
    offset: u64,
    content_type: Option<Seq<char>>,
    start_time: Option<Seq<char>>,
    end_time: Option<Seq<char>>,
) -> Seq<char> {
    let base = "http://localhost:3030/search?content_type=ocr&limit="@ + dec_str_of(limit as nat)
        + "&offset="@ + dec_str_of((offset / 10) as nat);
    let with_ct = match content_type {
        Some(ct) => base + "&content_type="@ + ct,
        None => base,
    };
    let with_st = match start_time {
        Some(st) => with_ct + "&start_time="@ + st,
        None => with_ct,
    };
    match end_time {
        Some(et) => with_st + "&end_time="@ + et,
        None => with_st,
    }
}

/// Build the search URL of one page of the capture store's feed.
pub fn build_search_url(
    limit: u64,
    offset: u64,
    content_type: &Option<String>,
    start_time: &Option<String>,
    end_time: &Option<String>,
) -> (r: String)
    ensures
        r@ == search_url(
            limit,
            offset,
            crate::chunker::view_opt(*content_type),
            crate::chunker::view_opt(*start_time),
            crate::chunker::view_opt(*end_time),
        ),
{
    let mut r = String::from_str("http://localhost:3030/search?content_type=ocr&limit=");
    r.append(u64_to_string(limit).as_str());
    r.append("&offset=");
    r.append(u64_to_string(offset / 10).as_str());
    match content_type {
        Some(ct) => {
            r.append("&content_type=");
            r.append(ct.as_str());
        },
        None => {},
    }
    match start_time {
        Some(st) => {
            r.append("&start_time=");
            r.append(st.as_str());
        },
        None => {},
    }
    match end_time {
        Some(et) => {
            r.append("&end_time=");
            r.append(et.as_str());
        },
        None => {},
    }
    r
}

} // verus!
