use vstd::prelude::*;

use crate::text::{
    contains_seq, contains_sub, lower_of, to_lowercase, words_of, views_of, split_words,
    split_by, split_str, starts_with, parse_u32, parsed_u32,
};
use crate::retrieval::term_hits;

verus! {

/// One activity record pulled from the capture daemon's store. Every
/// field is optional: an absent or null column is `None`, never an
/// error. `start_time` and `end_time` are seconds.
pub struct Row {
    pub app_name: Option<String>,
    pub window_name: Option<String>,
    pub browser_url: Option<String>,
    pub ocr_text: Option<String>,
    pub transcription: Option<String>,
    pub timestamp: Option<String>,
    pub device: Option<String>,
    pub start_time: Option<i64>,
    pub end_time: Option<i64>,
}

/// The app name a row is counted under: its recorded name, or "Unknown".
pub open spec fn row_app(r: Row) -> Seq<char> {
    match r.app_name {
        Some(s) => s@,
        None => "Unknown"@,
    }
}

/// The window name of a row, or "Unknown" when absent.
pub open spec fn row_window(r: Row) -> Seq<char> {
    match r.window_name {
        Some(s) => s@,
        None => "Unknown"@,
    }
}

/// The browser URL of a row, empty when absent.
pub open spec fn row_url(r: Row) -> Seq<char> {
    match r.browser_url {
        Some(s) => s@,
        None => ""@,
    }
}

/// The OCR text of a row, empty when absent.
pub open spec fn row_ocr(r: Row) -> Seq<char> {
    match r.ocr_text {
        Some(s) => s@,
        None => ""@,
    }
}

/// The transcription of a row, empty when absent.
pub open spec fn row_trans(r: Row) -> Seq<char> {
    match r.transcription {
        Some(s) => s@,
        None => ""@,
    }
}

/// The timestamp of a row, empty when absent.
pub open spec fn row_ts(r: Row) -> Seq<char> {
    match r.timestamp {
        Some(s) => s@,
        None => ""@,
    }
}

/// Whether a string starts with an HTTP or HTTPS scheme.
pub open spec fn has_http_scheme(url: Seq<char>) -> bool {
    (url.len() >= 7 && url.take(7) == "http://"@) || (url.len() >= 8 && url.take(8) == "https://"@)
}

/// The domain of a browser URL: the text between the first "//" and the
/// next "/", for HTTP and HTTPS URLs only.
pub open spec fn domain_of(url: Seq<char>) -> Option<Seq<char>> {
    if has_http_scheme(url) {
        let fields = split_by(url, "//"@);
        if fields.len() >= 2 {
            Some(split_by(fields[1], "/"@)[0])
        } else {
            None
        }
    } else {
        None
    }
}

/// Extract the domain of a browser URL, if it has an HTTP or HTTPS
/// scheme.
pub fn extract_domain(url: &str) -> (r: Option<String>)
    ensures
        match r {
            Some(d) => domain_of(url@) == Some(d@),
            None => domain_of(url@) is None,
        },
{
    proof {
        reveal_strlit("http://");
        reveal_strlit("https://");
        reveal_strlit("//");
        reveal_strlit("/");
    }
    if starts_with(url, "http://") || starts_with(url, "https://") {
        let fields = split_str(url, "//");
        if fields.len() >= 2 {
            let sub = split_str(fields[1].as_str(), "/");
            proof {
                crate::text::lemma_split_by_nonempty(fields@[1]@, "/"@);
            }
            Some(sub[0].clone())
        } else {
            None
        }
    } else {
        None
    }
}

/// The content class of an OCR text, by fixed precedence: error text,
/// then long text (over 50 words), then tiny text (under 5 words), then
/// web text, then everything else.
pub open spec fn ocr_class(text: Seq<char>) -> Seq<char> {
    let lower = lower_of(text);
    if contains_seq(lower, "error"@) || contains_seq(lower, "exception"@) {
        "error_messages"@
    } else if words_of(text).len() > 50 {
        "detailed_content"@
    } else if words_of(text).len() < 5 {
        "ui_elements"@
    } else if contains_seq(lower, "http"@) {
        "web_content"@
    } else {
        "general_text"@
    }
}

/// Classify an OCR text into its content class.
pub fn classify_ocr_content(text: &str) -> (r: String)
    ensures
        r@ == ocr_class(text@),
{
    let lower = to_lowercase(text);
    if contains_sub(lower.as_str(), "error") || contains_sub(lower.as_str(), "exception") {
        String::from_str("error_messages")
    } else {
        let ws = split_words(text);
        let word_count = ws.len();
        proof {
            assert(words_of(text@).len() == views_of(ws@).len());
        }
        if word_count > 50 {
            String::from_str("detailed_content")
        } else if word_count < 5 {
            String::from_str("ui_elements")
        } else if contains_sub(lower.as_str(), "http") {
            String::from_str("web_content")
        } else {
            String::from_str("general_text")
        }
    }
}

/// The class of an audio transcription: a meeting, a long conversation
/// (over 100 characters), or a short clip.
pub open spec fn audio_class(t: Seq<char>) -> Seq<char> {
    if contains_seq(lower_of(t), "meeting"@) {
        "meeting"@
    } else if t.len() > 100 {
        "long_conversation"@
    } else {
        "short_audio"@
    }
}

/// Classify an audio transcription.
pub fn classify_audio(t: &str) -> (r: String)
    ensures
        r@ == audio_class(t@),
{
    let lower = to_lowercase(t);
    if contains_sub(lower.as_str(), "meeting") {
        String::from_str("meeting")
    } else if t.unicode_len() > 100 {
        String::from_str("long_conversation")
    } else {
        String::from_str("short_audio")
    }
}

/// The hour bucket of a timestamp: the digits after the space separator
/// and before the first colon, or nothing when they do not parse.
pub open spec fn hour_of(ts: Seq<char>) -> Option<u32> {
    let fields = split_by(ts, " "@);
    if fields.len() >= 2 {
        parsed_u32(split_by(fields[1], ":"@)[0])
    } else {
        None
    }
}

/// Extract the hour bucket of a timestamp, if it has one.
pub fn extract_hour_from_timestamp(ts: &str) -> (r: Option<u32>)
    ensures
        r == hour_of(ts@),
{
    proof {
        reveal_strlit(" ");
        reveal_strlit(":");
    }
    let fields = split_str(ts, " ");
    if fields.len() >= 2 {
        let sub = split_str(fields[1].as_str(), ":");
        proof {
            crate::text::lemma_split_by_nonempty(fields@[1]@, ":"@);
        }
        parse_u32(sub[0].as_str())
    } else {
        None
    }
}

/// What chrono's parse of a timestamp yields: whether an RFC 3339 string
/// parses, and the epoch second it denotes, depend on the characters
/// alone.
pub uninterp spec fn parsed_epoch_seconds(s: Seq<char>) -> Option<i64>;

/// Relies on chrono: `str::parse::<DateTime<Utc>>` accepts a relaxed
/// RFC 3339 form, and `DateTime::timestamp` is its epoch second.
#[verifier::external_body]
pub fn parse_timestamp(ts: &str) -> (r: Option<i64>)
    ensures
        r == parsed_epoch_seconds(ts@),
{
    match ts.parse::<chrono::DateTime<chrono::Utc>>() {
        Ok(dt) => Some(dt.timestamp()),
        Err(_) => None,
    }
}

/// Relies on chrono's Utc::now and its formatter for the report header.
/// Nothing is assumed of the clock or of the rendered text.
#[verifier::external_body]
pub fn now_report_timestamp() -> (r: String)
{
    chrono::Utc::now().format("%B %d, %Y at %I:%M %p UTC").to_string()
}

/// Saturating addition on `usize` counters.
pub open spec fn sat_add_usize(a: usize, b: usize) -> usize {
    if a + b > usize::MAX {
        usize::MAX
    } else {
        (a + b) as usize
    }
}

/// Add two counters, pinning at the maximum instead of overflowing.
pub fn sat_add(a: usize, b: usize) -> (r: usize)
    ensures
        r == sat_add_usize(a, b),
{
    if a > usize::MAX - b {
        usize::MAX
    } else {
        a + b
    }
}

/// Saturating addition on `u64` counters.
pub open spec fn sat_add_u64(a: u64, b: u64) -> u64 {
    if a + b > u64::MAX {
        u64::MAX
    } else {
        (a + b) as u64
    }
}

/// Add two wide counters, pinning at the maximum instead of overflowing.
pub fn sat_add_wide(a: u64, b: u64) -> (r: u64)
    ensures
        r == sat_add_u64(a, b),
{
    if a > u64::MAX - b {
        u64::MAX
    } else {
        a + b
    }
}

/// Saturating addition on `i64` second counters.
pub open spec fn sat_add_i64(a: i64, b: i64) -> i64 {
    if a + b > i64::MAX {
        i64::MAX
    } else if a + b < i64::MIN {
        i64::MIN
    } else {
        (a + b) as i64
    }
}

/// Add two signed counters, pinning at the bounds instead of
/// overflowing.
pub fn sat_add_signed(a: i64, b: i64) -> (r: i64)
    ensures
        r == sat_add_i64(a, b),
{
    if b >= 0 {
        if a > i64::MAX - b {
            i64::MAX
        } else {
            a + b
        }
    } else {
        if a < i64::MIN - b {
            i64::MIN
        } else {
            a + b
        }
    }
}

/// The fixed keywords of the "coding" activity category.
pub open spec fn coding_keywords() -> Seq<Seq<char>> {
    seq!["function"@, "class"@, "import"@, "export"@, "const"@, "let"@, "var"@, "=>"@, "async"@, "await"@, "def"@, "return"@, "if"@, "else"@, "for"@, "while"@]
}

/// Build the "coding" keyword list.
pub fn coding_keywords_exec() -> (v: Vec<String>)
    ensures
        views_of(v@) == coding_keywords(),
{
    let mut v: Vec<String> = Vec::new();
    v.push(String::from_str("function"));
    v.push(String::from_str("class"));
    v.push(String::from_str("import"));
    v.push(String::from_str("export"));
    v.push(String::from_str("const"));
    v.push(String::from_str("let"));
    v.push(String::from_str("var"));
    v.push(String::from_str("=>"));
    v.push(String::from_str("async"));
    v.push(String::from_str("await"));
    v.push(String::from_str("def"));
    v.push(String::from_str("return"));
    v.push(String::from_str("if"));
    v.push(String::from_str("else"));
    v.push(String::from_str("for"));
    v.push(String::from_str("while"));
    proof {
        assert(views_of(v@) =~= coding_keywords());
    }
    v
}

/// The fixed keywords of the "communication" activity category.
pub open spec fn communication_keywords() -> Seq<Seq<char>> {
    seq!["message"@, "email"@, "chat"@, "discord"@, "slack"@, "teams"@, "zoom"@, "call"@, "meeting"@, "hello"@, "hi"@, "thanks"@]
}

/// Build the "communication" keyword list.
pub fn communication_keywords_exec() -> (v: Vec<String>)
    ensures
        views_of(v@) == communication_keywords(),
{
    let mut v: Vec<String> = Vec::new();
    v.push(String::from_str("message"));
    v.push(String::from_str("email"));
    v.push(String::from_str("chat"));
    v.push(String::from_str("discord"));
    v.push(String::from_str("slack"));
    v.push(String::from_str("teams"));
    v.push(String::from_str("zoom"));
    v.push(String::from_str("call"));
    v.push(String::from_str("meeting"));
    v.push(String::from_str("hello"));
    v.push(String::from_str("hi"));
    v.push(String::from_str("thanks"));
    proof {
        assert(views_of(v@) =~= communication_keywords());
    }
    v
}

/// The fixed keywords of the "documentation" activity category.
pub open spec fn documentation_keywords() -> Seq<Seq<char>> {
    seq!["readme"@, "docs"@, "wiki"@, "documentation"@, "manual"@, "guide"@, "tutorial"@, "help"@]
}

/// Build the "documentation" keyword list.
pub fn documentation_keywords_exec() -> (v: Vec<String>)
    ensures
        views_of(v@) == documentation_keywords(),
{
    let mut v: Vec<String> = Vec::new();
    v.push(String::from_str("readme"));
    v.push(String::from_str("docs"));
    v.push(String::from_str("wiki"));
    v.push(String::from_str("documentation"));
    v.push(String::from_str("manual"));
    v.push(String::from_str("guide"));
    v.push(String::from_str("tutorial"));
    v.push(String::from_str("help"));
    proof {
        assert(views_of(v@) =~= documentation_keywords());
    }
    v
}

/// The fixed keywords of the "research" activity category.
pub open spec fn research_keywords() -> Seq<Seq<char>> {
    seq!["stackoverflow"@, "github"@, "google"@, "search"@, "learn"@, "how to"@, "what is"@, "why"@]
}

/// Build the "research" keyword list.
pub fn research_keywords_exec() -> (v: Vec<String>)
    ensures
        views_of(v@) == research_keywords(),
{
    let mut v: Vec<String> = Vec::new();
    v.push(String::from_str("stackoverflow"));
    v.push(String::from_str("github"));
    v.push(String::from_str("google"));
    v.push(String::from_str("search"));
    v.push(String::from_str("learn"));
    v.push(String::from_str("how to"));
    v.push(String::from_str("what is"));
    v.push(String::from_str("why"));
    proof {
        assert(views_of(v@) =~= research_keywords());
    }
    v
}

/// The fixed keywords of the "design" activity category.
pub open spec fn design_keywords() -> Seq<Seq<char>> {
    seq!["figma"@, "photoshop"@, "illustrator"@, "design"@, "ui"@, "ux"@, "interface"@, "layout"@]
}

/// Build the "design" keyword list.
pub fn design_keywords_exec() -> (v: Vec<String>)
    ensures
        views_of(v@) == design_keywords(),
{
    let mut v: Vec<String> = Vec::new();
    v.push(String::from_str("figma"));
    v.push(String::from_str("photoshop"));
    v.push(String::from_str("illustrator"));
    v.push(String::from_str("design"));
    v.push(String::from_str("ui"));
    v.push(String::from_str("ux"));
    v.push(String::from_str("interface"));
    v.push(String::from_str("layout"));
    proof {
        assert(views_of(v@) =~= design_keywords());
    }
    v
}

/// The fixed keywords of the "data" activity category.
pub open spec fn data_keywords() -> Seq<Seq<char>> {
    seq!["database"@, "sql"@, "query"@, "data"@, "analytics"@, "chart"@, "table"@, "select"@, "insert"@]
}

/// Build the "data" keyword list.
pub fn data_keywords_exec() -> (v: Vec<String>)
    ensures
        views_of(v@) == data_keywords(),
{
    let mut v: Vec<String> = Vec::new();
    v.push(String::from_str("database"));
    v.push(String::from_str("sql"));
    v.push(String::from_str("query"));
    v.push(String::from_str("data"));
    v.push(String::from_str("analytics"));
    v.push(String::from_str("chart"));
    v.push(String::from_str("table"));
    v.push(String::from_str("select"));
    v.push(String::from_str("insert"));
    proof {
        assert(views_of(v@) =~= data_keywords());
    }
    v
}

/// The fixed keywords of the "productivity" activity category.
pub open spec fn productivity_keywords() -> Seq<Seq<char>> {
    seq!["todo"@, "task"@, "deadline"@, "project"@, "plan"@, "schedule"@, "calendar"@]
}

/// Build the "productivity" keyword list.
pub fn productivity_keywords_exec() -> (v: Vec<String>)
    ensures
        views_of(v@) == productivity_keywords(),
{
    let mut v: Vec<String> = Vec::new();
    v.push(String::from_str("todo"));
    v.push(String::from_str("task"));
    v.push(String::from_str("deadline"));
    v.push(String::from_str("project"));
    v.push(String::from_str("plan"));
    v.push(String::from_str("schedule"));
    v.push(String::from_str("calendar"));
    proof {
        assert(views_of(v@) =~= productivity_keywords());
    }
    v
}

/// The fixed keywords of the "debugging" activity category.
pub open spec fn debugging_keywords() -> Seq<Seq<char>> {
    seq!["error"@, "bug"@, "debug"@, "exception"@, "fix"@, "issue"@, "problem"@, "crash"@]
}

/// Build the "debugging" keyword list.
pub fn debugging_keywords_exec() -> (v: Vec<String>)
    ensures
        views_of(v@) == debugging_keywords(),
{
    let mut v: Vec<String> = Vec::new();
    v.push(String::from_str("error"));
    v.push(String::from_str("bug"));
    v.push(String::from_str("debug"));
    v.push(String::from_str("exception"));
    v.push(String::from_str("fix"));
    v.push(String::from_str("issue"));
    v.push(String::from_str("problem"));
    v.push(String::from_str("crash"));
    proof {
        assert(views_of(v@) =~= debugging_keywords());
    }
    v
}

/// Clamp a mathematical count into `usize`.
pub open spec fn clamp_usize(n: int) -> usize {
    if n > usize::MAX {
        usize::MAX
    } else if n < 0 {
        0
    } else {
        n as usize
    }
}

/// Per-app usage: how many rows touched the app, and how much text they
/// carried.
pub struct AppUsageEntry {
    pub name: String,
    pub count: usize,
    pub content_len: usize,
}

/// A counted key: one window, one website domain.
pub struct KeyCount {
    pub key: String,
    pub count: usize,
}

/// A counted hour-of-day bucket.
pub struct HourCount {
    pub hour: u32,
    pub count: usize,
}

/// How many OCR texts fell into each content class.
pub struct ContentTypeCounts {
    pub error_messages: usize,
    pub detailed_content: usize,
    pub ui_elements: usize,
    pub web_content: usize,
    pub general_text: usize,
}

/// How many transcriptions fell into each audio class.
pub struct AudioTypeCounts {
    pub meeting: usize,
    pub long_conversation: usize,
    pub short_audio: usize,
}

/// Keyword hits per activity category over the whole row stream.
pub struct ActivityCounts {
    pub coding: usize,
    pub communication: usize,
    pub documentation: usize,
    pub research: usize,
    pub design: usize,
    pub data: usize,
    pub productivity: usize,
    pub debugging: usize,
}

/// The app names seen in the rows, in first-seen order, each once.
pub open spec fn app_keys(rows: Seq<Row>) -> Seq<Seq<char>>
    decreases rows.len(),
{
    if rows.len() == 0 {
        Seq::empty()
    } else {
        let rest = app_keys(rows.drop_last());
        if rest.contains(row_app(rows.last())) {
            rest
        } else {
            rest.push(row_app(rows.last()))
        }
    }
}

/// How many rows are counted under app `k`.
pub open spec fn app_count(rows: Seq<Row>, k: Seq<char>) -> nat
    decreases rows.len(),
{
    if rows.len() == 0 {
        0
    } else {
        app_count(rows.drop_last(), k) + if row_app(rows.last()) == k {
            1nat
        } else {
            0nat
        }
    }
}

/// The text volume (OCR plus transcription characters) of one row.
pub open spec fn row_content_len(r: Row) -> usize {
    clamp_usize(row_ocr(r).len() + row_trans(r).len() as int)
}

/// The text volume counted under app `k`, saturating at `usize::MAX`.
pub open spec fn app_content_len(rows: Seq<Row>, k: Seq<char>) -> usize
    decreases rows.len(),
{
    if rows.len() == 0 {
        0
    } else {
        let rest = app_content_len(rows.drop_last(), k);
        if row_app(rows.last()) == k {
            sat_add_usize(rest, row_content_len(rows.last()))
        } else {
            rest
        }
    }
}

/// Whether a row contributes a window bucket.
pub open spec fn has_window(r: Row) -> bool {
    row_window(r).len() > 0 && row_window(r) != "Unknown"@
}

/// The window bucket of a row: `app - window`.
pub open spec fn window_key(r: Row) -> Seq<char> {
    row_app(r) + " - "@ + row_window(r)
}

/// The window buckets seen, in first-seen order, each once.
pub open spec fn window_keys(rows: Seq<Row>) -> Seq<Seq<char>>
    decreases rows.len(),
{
    if rows.len() == 0 {
        Seq::empty()
    } else {
        let rest = window_keys(rows.drop_last());
        if !has_window(rows.last()) || rest.contains(window_key(rows.last())) {
            rest
        } else {
            rest.push(window_key(rows.last()))
        }
    }
}

/// How many rows fall in window bucket `k`.
pub open spec fn window_count(rows: Seq<Row>, k: Seq<char>) -> nat
    decreases rows.len(),
{
    if rows.len() == 0 {
        0
    } else {
        window_count(rows.drop_last(), k) + if has_window(rows.last()) && window_key(rows.last()) == k {
            1nat
        } else {
            0nat
        }
    }
}

/// How many rows under app `k` carry a window name.
pub open spec fn windows_count(rows: Seq<Row>, k: Seq<char>) -> nat
    decreases rows.len(),
{
    if rows.len() == 0 {
        0
    } else {
        windows_count(rows.drop_last(), k) + if row_app(rows.last()) == k
            && (rows.last().window_name matches Some(w) && w@.len() > 0) {
            1nat
        } else {
            0nat
        }
    }
}

/// Count the rows under app `k` that carry a window name.
pub fn count_windows(rows: &Vec<Row>, k: &str) -> (count: usize)
    ensures
        count == windows_count(rows@, k@),
{
    let mut count: usize = 0;
    let mut i: usize = 0;
    while i < rows.len()
        invariant
            i <= rows.len(),
            count <= i,
            count == windows_count(rows@.take(i as int), k@),
        decreases rows.len() - i,
    {
        proof {
            assert(rows@.take(i + 1).drop_last() =~= rows@.take(i as int));
            assert(rows@.take(i + 1).last() == rows@[i as int]);
        }
        let name = row_app_exec(&rows[i]);
        let has_win = match &rows[i].window_name {
            Some(w) => w.as_str().unicode_len() > 0,
            None => false,
        };
        if has_win && crate::text::str_eq(name, k) {
            count = count + 1;
        }
        i = i + 1;
    }
    proof {
        assert(rows@.take(rows@.len() as int) =~= rows@);
    }
    count
}

/// Whether a row carries audio.
pub open spec fn has_audio(r: Row) -> bool {
    row_trans(r).len() > 0
}

/// The apps with audio, in first-seen order, each once.
pub open spec fn audio_app_keys(rows: Seq<Row>) -> Seq<Seq<char>>
    decreases rows.len(),
{
    if rows.len() == 0 {
        Seq::empty()
    } else {
        let rest = audio_app_keys(rows.drop_last());
        if !has_audio(rows.last()) || rest.contains(row_app(rows.last())) {
            rest
        } else {
            rest.push(row_app(rows.last()))
        }
    }
}

/// How many audio clips fall under app `k`.
pub open spec fn audio_app_count(rows: Seq<Row>, k: Seq<char>) -> nat
    decreases rows.len(),
{
    if rows.len() == 0 {
        0
    } else {
        audio_app_count(rows.drop_last(), k) + if has_audio(rows.last()) && row_app(rows.last()) == k {
            1nat
        } else {
            0nat
        }
    }
}

/// The apps with audio, each once, in first-seen order.
pub fn collect_audio_app_keys(rows: &Vec<Row>) -> (keys: Vec<String>)
    ensures
        views_of(keys@) == audio_app_keys(rows@),
{
    let mut keys: Vec<String> = Vec::new();
    let mut i: usize = 0;
    proof {
        assert(audio_app_keys(rows@.take(0)) =~= Seq::<Seq<char>>::empty());
    }
    while i < rows.len()
        invariant
            i <= rows.len(),
            views_of(keys@) == audio_app_keys(rows@.take(i as int)),
        decreases rows.len() - i,
    {
        proof {
            assert(rows@.take(i + 1).drop_last() =~= rows@.take(i as int));
            assert(rows@.take(i + 1).last() == rows@[i as int]);
        }
        let trans = opt_or_empty(&rows[i].transcription);
        if trans.unicode_len() > 0 {
            let name = row_app_exec(&rows[i]);
            if !vec_contains_str(&keys, name) {
                keys.push(String::from_str(name));
                proof {
                    assert(views_of(keys@)
                        =~= audio_app_keys(rows@.take(i as int)).push(row_app(rows@[i as int])));
                }
            }
        }
        i = i + 1;
    }
    proof {
        assert(rows@.take(rows@.len() as int) =~= rows@);
    }
    keys
}

/// Count the audio clips under app `k`.
pub fn count_audio_app(rows: &Vec<Row>, k: &str) -> (count: usize)
    ensures
        count == audio_app_count(rows@, k@),
{
    let mut count: usize = 0;
    let mut i: usize = 0;
    while i < rows.len()
        invariant
            i <= rows.len(),
            count <= i,
            count == audio_app_count(rows@.take(i as int), k@),
        decreases rows.len() - i,
    {
        proof {
            assert(rows@.take(i + 1).drop_last() =~= rows@.take(i as int));
            assert(rows@.take(i + 1).last() == rows@[i as int]);
        }
        let trans = opt_or_empty(&rows[i].transcription);
        if trans.unicode_len() > 0 {
            let name = row_app_exec(&rows[i]);
            if crate::text::str_eq(name, k) {
                count = count + 1;
            }
        }
        i = i + 1;
    }
    proof {
        assert(rows@.take(rows@.len() as int) =~= rows@);
    }
    count
}

/// Whether a row contributes a website domain.
pub open spec fn has_domain(r: Row) -> bool {
    row_url(r).len() > 0 && domain_of(row_url(r)) is Some
}

/// The website domains seen, in first-seen order, each once.
pub open spec fn domain_keys(rows: Seq<Row>) -> Seq<Seq<char>>
    decreases rows.len(),
{
    if rows.len() == 0 {
        Seq::empty()
    } else {
        let rest = domain_keys(rows.drop_last());
        if !has_domain(rows.last()) || rest.contains(domain_of(row_url(rows.last())).unwrap()) {
            rest
        } else {
            rest.push(domain_of(row_url(rows.last())).unwrap())
        }
    }
}

/// How many visits fall on domain `d`.
pub open spec fn domain_count(rows: Seq<Row>, d: Seq<char>) -> nat
    decreases rows.len(),
{
    if rows.len() == 0 {
        0
    } else {
        domain_count(rows.drop_last(), d) + if has_domain(rows.last())
            && domain_of(row_url(rows.last())) == Some(d) {
            1nat
        } else {
            0nat
        }
    }
}

/// Whether a row contributes an hour bucket.
pub open spec fn has_hour(r: Row) -> bool {
    row_ts(r).len() > 0 && hour_of(row_ts(r)) is Some
}

/// The hour buckets seen, in first-seen order, each once.
pub open spec fn hour_keys(rows: Seq<Row>) -> Seq<u32>
    decreases rows.len(),
{
    if rows.len() == 0 {
        Seq::empty()
    } else {
        let rest = hour_keys(rows.drop_last());
        if !has_hour(rows.last()) || rest.contains(hour_of(row_ts(rows.last())).unwrap()) {
            rest
        } else {
            rest.push(hour_of(row_ts(rows.last())).unwrap())
        }
    }
}

/// How many rows fall in hour bucket `h`.
pub open spec fn hour_count(rows: Seq<Row>, h: u32) -> nat
    decreases rows.len(),
{
    if rows.len() == 0 {
        0
    } else {
        hour_count(rows.drop_last(), h) + if has_hour(rows.last())
            && hour_of(row_ts(rows.last())) == Some(h) {
            1nat
        } else {
            0nat
        }
    }
}

/// How many rows with OCR text fall in content class `cls`.
pub open spec fn ocr_class_count(rows: Seq<Row>, cls: Seq<char>) -> nat
    decreases rows.len(),
{
    if rows.len() == 0 {
        0
    } else {
        ocr_class_count(rows.drop_last(), cls) + if row_ocr(rows.last()).len() > 0
            && ocr_class(row_ocr(rows.last())) == cls {
            1nat
        } else {
            0nat
        }
    }
}

/// How many rows with a transcription fall in audio class `cls`.
pub open spec fn audio_class_count(rows: Seq<Row>, cls: Seq<char>) -> nat
    decreases rows.len(),
{
    if rows.len() == 0 {
        0
    } else {
        audio_class_count(rows.drop_last(), cls) + if row_trans(rows.last()).len() > 0
            && audio_class(row_trans(rows.last())) == cls {
            1nat
        } else {
            0nat
        }
    }
}

/// Keyword hits of one category over one row: its OCR text and its
/// transcription, each lower-cased, each counted when present.
pub open spec fn row_cat_hits(r: Row, kws: Seq<Seq<char>>) -> nat {
    (if row_ocr(r).len() > 0 {
        term_hits(lower_of(row_ocr(r)), kws)
    } else {
        0nat
    }) + (if row_trans(r).len() > 0 {
        term_hits(lower_of(row_trans(r)), kws)
    } else {
        0nat
    })
}

/// Keyword hits of one category over the row stream, saturating at
/// `usize::MAX`.
pub open spec fn cat_hits(rows: Seq<Row>, kws: Seq<Seq<char>>) -> usize
    decreases rows.len(),
{
    if rows.len() == 0 {
        0
    } else {
        sat_add_usize(cat_hits(rows.drop_last(), kws), clamp_usize(row_cat_hits(rows.last(), kws) as int))
    }
}

/// OCR characters over the row stream, saturating at `usize::MAX`.
pub open spec fn total_ocr_chars(rows: Seq<Row>) -> usize
    decreases rows.len(),
{
    if rows.len() == 0 {
        0
    } else {
        sat_add_usize(total_ocr_chars(rows.drop_last()), clamp_usize(row_ocr(rows.last()).len() as int))
    }
}

/// How many rows carried a browser URL.
pub open spec fn browser_usage(rows: Seq<Row>) -> nat
    decreases rows.len(),
{
    if rows.len() == 0 {
        0
    } else {
        browser_usage(rows.drop_last()) + if row_url(rows.last()).len() > 0 {
            1nat
        } else {
            0nat
        }
    }
}

/// Clamp a mathematical value into `i64`.
pub open spec fn clamp_i64(n: int) -> i64 {
    if n > i64::MAX {
        i64::MAX
    } else if n < i64::MIN {
        i64::MIN
    } else {
        n as i64
    }
}

/// The audio duration of one row in seconds; an absent bound counts as
/// zero, as the capture store reports.
pub open spec fn row_audio_secs(r: Row) -> i64 {
    let s = match r.start_time {
        Some(v) => v as int,
        None => 0int,
    };
    let e = match r.end_time {
        Some(v) => v as int,
        None => 0int,
    };
    clamp_i64(e - s)
}

/// Audio seconds over rows with a transcription, saturating at the `i64`
/// bounds.
pub open spec fn total_audio_secs(rows: Seq<Row>) -> i64
    decreases rows.len(),
{
    if rows.len() == 0 {
        0
    } else {
        let rest = total_audio_secs(rows.drop_last());
        if row_trans(rows.last()).len() > 0 {
            sat_add_i64(rest, row_audio_secs(rows.last()))
        } else {
            rest
        }
    }
}

/// The first non-empty timestamp of the row stream.
pub open spec fn first_ts(rows: Seq<Row>) -> Option<Seq<char>>
    decreases rows.len(),
{
    if rows.len() == 0 {
        None
    } else {
        match first_ts(rows.drop_last()) {
            Some(t) => Some(t),
            None => if row_ts(rows.last()).len() > 0 {
                Some(row_ts(rows.last()))
            } else {
                None
            },
        }
    }
}

/// The last non-empty timestamp of the row stream.
pub open spec fn last_ts(rows: Seq<Row>) -> Option<Seq<char>>
    decreases rows.len(),
{
    if rows.len() == 0 {
        None
    } else if row_ts(rows.last()).len() > 0 {
        Some(row_ts(rows.last()))
    } else {
        last_ts(rows.drop_last())
    }
}

/// Whole minutes between two epoch seconds, truncated toward zero.
pub open spec fn span_minutes(s: i64, e: i64) -> i64 {
    if e >= s {
        clamp_i64((e - s) / 60)
    } else {
        clamp_i64(0int - ((s - e) / 60))
    }
}

/// The session span in minutes: from the first to the last timestamp,
/// when both parse; a malformed endpoint yields no span, never an error.
pub open spec fn session_span_minutes(rows: Seq<Row>) -> Option<i64> {
    match (first_ts(rows), last_ts(rows)) {
        (Some(s), Some(e)) => match (parsed_epoch_seconds(s), parsed_epoch_seconds(e)) {
            (Some(a), Some(b)) => Some(span_minutes(a, b)),
            _ => None,
        },
        _ => None,
    }
}

/// The app name a row is counted under.
pub fn row_app_exec(r: &Row) -> (s: &str)
    ensures
        s@ == row_app(*r),
{
    match &r.app_name {
        Some(s) => s.as_str(),
        None => "Unknown",
    }
}

/// The window name of a row.
fn row_window_exec(r: &Row) -> (s: &str)
    ensures
        s@ == row_window(*r),
{
    match &r.window_name {
        Some(s) => s.as_str(),
        None => "Unknown",
    }
}

/// An optional string, or empty when absent.
fn opt_or_empty(o: &Option<String>) -> (s: &str)
    ensures
        match o {
            Some(t) => s@ == t@,
            None => s@ == ""@,
        },
{
    match o {
        Some(s) => s.as_str(),
        None => "",
    }
}

/// Whether one of the collected strings is `s`.
pub fn vec_contains_str(v: &Vec<String>, s: &str) -> (r: bool)
    ensures
        r == views_of(v@).contains(s@),
{
    let mut i: usize = 0;
    while i < v.len()
        invariant
            i <= v.len(),
            forall|j: int| 0 <= j < i ==> views_of(v@)[j] != s@,
        decreases v.len() - i,
    {
        if crate::text::str_eq(v[i].as_str(), s) {
            assert(views_of(v@).contains(s@)) by {
                assert(views_of(v@)[i as int] == s@);
            }
            return true;
        }
        i = i + 1;
    }
    proof {
        if views_of(v@).contains(s@) {
            let j = choose|j: int| 0 <= j < views_of(v@).len() && views_of(v@)[j] == s@;
            assert(views_of(v@)[j] != s@);
        }
    }
    false
}

/// Whether one of the collected hours is `h`.
fn vec_contains_u32(v: &Vec<u32>, h: u32) -> (r: bool)
    ensures
        r == v@.contains(h),
{
    let mut i: usize = 0;
    while i < v.len()
        invariant
            i <= v.len(),
            forall|j: int| 0 <= j < i ==> v@[j] != h,
        decreases v.len() - i,
    {
        if v[i] == h {
            return true;
        }
        i = i + 1;
    }
    proof {
        if v@.contains(h) {
            let j = choose|j: int| 0 <= j < v@.len() && v@[j] == h;
            assert(v@[j] != h);
        }
    }
    false
}

/// The app names of the rows, each once, in first-seen order.
pub fn collect_app_keys(rows: &Vec<Row>) -> (keys: Vec<String>)
    ensures
        views_of(keys@) == app_keys(rows@),
{
    let mut keys: Vec<String> = Vec::new();
    let mut i: usize = 0;
    proof {
        assert(app_keys(rows@.take(0)) =~= Seq::<Seq<char>>::empty());
    }
    while i < rows.len()
        invariant
            i <= rows.len(),
            views_of(keys@) == app_keys(rows@.take(i as int)),
        decreases rows.len() - i,
    {
        proof {
            assert(rows@.take(i + 1).drop_last() =~= rows@.take(i as int));
            assert(rows@.take(i + 1).last() == rows@[i as int]);
        }
        let name = row_app_exec(&rows[i]);
        if !vec_contains_str(&keys, name) {
            keys.push(String::from_str(name));
            proof {
                assert(views_of(keys@) =~= app_keys(rows@.take(i as int)).push(row_app(rows@[i as int])));
            }
        }
        i = i + 1;
    }
    proof {
        assert(rows@.take(rows@.len() as int) =~= rows@);
    }
    keys
}

/// Count the rows under app `k`, and their text volume.
pub fn count_app(rows: &Vec<Row>, k: &str) -> (r: (usize, usize))
    ensures
        r.0 == app_count(rows@, k@),
        r.1 == app_content_len(rows@, k@),
{
    let mut count: usize = 0;
    let mut content: usize = 0;
    let mut i: usize = 0;
    proof {
        assert(app_count(rows@.take(0), k@) == 0);
        assert(app_content_len(rows@.take(0), k@) == 0);
    }
    while i < rows.len()
        invariant
            i <= rows.len(),
            count <= i,
            count == app_count(rows@.take(i as int), k@),
            content == app_content_len(rows@.take(i as int), k@),
        decreases rows.len() - i,
    {
        proof {
            assert(rows@.take(i + 1).drop_last() =~= rows@.take(i as int));
            assert(rows@.take(i + 1).last() == rows@[i as int]);
        }
        let name = row_app_exec(&rows[i]);
        if crate::text::str_eq(name, k) {
            count = count + 1;
            let olen = opt_or_empty(&rows[i].ocr_text).unicode_len();
            let tlen = opt_or_empty(&rows[i].transcription).unicode_len();
            let row_len = sat_add(olen, tlen);
            proof {
                assert(row_len == row_content_len(rows@[i as int]));
            }
            content = sat_add(content, row_len);
        }
        i = i + 1;
    }
    proof {
        assert(rows@.take(rows@.len() as int) =~= rows@);
    }
    (count, content)
}

/// The window bucket label of a row.
fn window_key_exec(r: &Row) -> (s: String)
    ensures
        s@ == window_key(*r),
{
    let mut s = String::from_str(row_app_exec(r));
    s.append(" - ");
    s.append(row_window_exec(r));
    s
}

/// Whether a row contributes a window bucket.
fn has_window_exec(r: &Row) -> (b: bool)
    ensures
        b == has_window(*r),
{
    let w = row_window_exec(r);
    w.unicode_len() > 0 && !crate::text::str_eq(w, "Unknown")
}

/// The window buckets of the rows, each once, in first-seen order.
fn collect_window_keys(rows: &Vec<Row>) -> (keys: Vec<String>)
    ensures
        views_of(keys@) == window_keys(rows@),
{
    let mut keys: Vec<String> = Vec::new();
    let mut i: usize = 0;
    proof {
        assert(window_keys(rows@.take(0)) =~= Seq::<Seq<char>>::empty());
    }
    while i < rows.len()
        invariant
            i <= rows.len(),
            views_of(keys@) == window_keys(rows@.take(i as int)),
        decreases rows.len() - i,
    {
        proof {
            assert(rows@.take(i + 1).drop_last() =~= rows@.take(i as int));
            assert(rows@.take(i + 1).last() == rows@[i as int]);
        }
        if has_window_exec(&rows[i]) {
            let key = window_key_exec(&rows[i]);
            if !vec_contains_str(&keys, key.as_str()) {
                keys.push(key);
                proof {
                    assert(views_of(keys@) =~= window_keys(rows@.take(i as int)).push(window_key(rows@[i as int])));
                }
            }
        }
        i = i + 1;
    }
    proof {
        assert(rows@.take(rows@.len() as int) =~= rows@);
    }
    keys
}

/// Count the rows in window bucket `k`.
fn count_window(rows: &Vec<Row>, k: &str) -> (count: usize)
    ensures
        count == window_count(rows@, k@),
{
    let mut count: usize = 0;
    let mut i: usize = 0;
    while i < rows.len()
        invariant
            i <= rows.len(),
            count <= i,
            count == window_count(rows@.take(i as int), k@),
        decreases rows.len() - i,
    {
        proof {
            assert(rows@.take(i + 1).drop_last() =~= rows@.take(i as int));
            assert(rows@.take(i + 1).last() == rows@[i as int]);
        }
        if has_window_exec(&rows[i]) {
            let key = window_key_exec(&rows[i]);
            if crate::text::str_eq(key.as_str(), k) {
                count = count + 1;
            }
        }
        i = i + 1;
    }
    proof {
        assert(rows@.take(rows@.len() as int) =~= rows@);
    }
    count
}

/// The domain of a row's URL, when it has one.
fn row_domain_exec(r: &Row) -> (d: Option<String>)
    ensures
        match d {
            Some(s) => has_domain(*r) && domain_of(row_url(*r)) == Some(s@),
            None => !has_domain(*r),
        },
{
    let url = opt_or_empty(&r.browser_url);
    if url.unicode_len() == 0 {
        return None;
    }
    extract_domain(url)
}

/// The website domains of the rows, each once, in first-seen order.
pub fn collect_domain_keys(rows: &Vec<Row>) -> (keys: Vec<String>)
    ensures
        views_of(keys@) == domain_keys(rows@),
{
    let mut keys: Vec<String> = Vec::new();
    let mut i: usize = 0;
    proof {
        assert(domain_keys(rows@.take(0)) =~= Seq::<Seq<char>>::empty());
    }
    while i < rows.len()
        invariant
            i <= rows.len(),
            views_of(keys@) == domain_keys(rows@.take(i as int)),
        decreases rows.len() - i,
    {
        proof {
            assert(rows@.take(i + 1).drop_last() =~= rows@.take(i as int));
            assert(rows@.take(i + 1).last() == rows@[i as int]);
        }
        match row_domain_exec(&rows[i]) {
            Some(d) => {
                if !vec_contains_str(&keys, d.as_str()) {
                    keys.push(d);
                    proof {
                        assert(views_of(keys@) =~= domain_keys(rows@.take(i as int))
                            .push(domain_of(row_url(rows@[i as int])).unwrap()));
                    }
                }
            },
            None => {},
        }
        i = i + 1;
    }
    proof {
        assert(rows@.take(rows@.len() as int) =~= rows@);
    }
    keys
}

/// Count the visits on domain `d`.
pub fn count_domain(rows: &Vec<Row>, d: &str) -> (count: usize)
    ensures
        count == domain_count(rows@, d@),
{
    let mut count: usize = 0;
    let mut i: usize = 0;
    while i < rows.len()
        invariant
            i <= rows.len(),
            count <= i,
            count == domain_count(rows@.take(i as int), d@),
        decreases rows.len() - i,
    {
        proof {
            assert(rows@.take(i + 1).drop_last() =~= rows@.take(i as int));
            assert(rows@.take(i + 1).last() == rows@[i as int]);
        }
        match row_domain_exec(&rows[i]) {
            Some(dom) => {
                if crate::text::str_eq(dom.as_str(), d) {
                    count = count + 1;
                }
            },
            None => {},
        }
        i = i + 1;
    }
    proof {
        assert(rows@.take(rows@.len() as int) =~= rows@);
    }
    count
}

/// The hour bucket of a row, when it has one.
fn row_hour_exec(r: &Row) -> (h: Option<u32>)
    ensures
        match h {
            Some(v) => has_hour(*r) && hour_of(row_ts(*r)) == Some(v),
            None => !has_hour(*r),
        },
{
    let ts = opt_or_empty(&r.timestamp);
    if ts.unicode_len() == 0 {
        return None;
    }
    extract_hour_from_timestamp(ts)
}

/// The hour buckets of the rows, each once, in first-seen order.
fn collect_hour_keys(rows: &Vec<Row>) -> (keys: Vec<u32>)
    ensures
        keys@ == hour_keys(rows@),
{
    let mut keys: Vec<u32> = Vec::new();
    let mut i: usize = 0;
    proof {
        assert(hour_keys(rows@.take(0)) =~= Seq::<u32>::empty());
    }
    while i < rows.len()
        invariant
            i <= rows.len(),
            keys@ == hour_keys(rows@.take(i as int)),
        decreases rows.len() - i,
    {
        proof {
            assert(rows@.take(i + 1).drop_last() =~= rows@.take(i as int));
            assert(rows@.take(i + 1).last() == rows@[i as int]);
        }
        match row_hour_exec(&rows[i]) {
            Some(h) => {
                if !vec_contains_u32(&keys, h) {
                    keys.push(h);
                }
            },
            None => {},
        }
        i = i + 1;
    }
    proof {
        assert(rows@.take(rows@.len() as int) =~= rows@);
    }
    keys
}

/// The structured statistical report over a row stream: every counter is
/// a pure function of the rows, recomputed fresh on every call and never
/// cached. Estimated minutes derive from fixed heuristics: one minute
/// per row for an app, two minutes per visit for a website.
pub struct StatisticalReport {
    pub total_rows: usize,
    pub app_usage: Vec<AppUsageEntry>,
    pub window_counts: Vec<KeyCount>,
    pub website_domains: Vec<KeyCount>,
    pub hourly: Vec<HourCount>,
    pub content_types: ContentTypeCounts,
    pub audio_types: AudioTypeCounts,
    pub activity_categories: ActivityCounts,
    pub coding_indicators: usize,
    pub communication_indicators: usize,
    pub total_ocr_chars: usize,
    pub browser_usage: usize,
    pub total_audio_seconds: i64,
    pub session_start: Option<String>,
    pub session_end: Option<String>,
    pub session_minutes: Option<i64>,
}

/// Count one OCR text under its content class.
fn bump_content_class(ct: &mut ContentTypeCounts, text: &str)
    requires
        old(ct).error_messages < usize::MAX,
        old(ct).detailed_content < usize::MAX,
        old(ct).ui_elements < usize::MAX,
        old(ct).web_content < usize::MAX,
        old(ct).general_text < usize::MAX,
    ensures
        final(ct).error_messages == old(ct).error_messages
            + (if ocr_class(text@) == "error_messages"@ { 1int } else { 0int }),
        final(ct).detailed_content == old(ct).detailed_content
            + (if ocr_class(text@) == "detailed_content"@ { 1int } else { 0int }),
        final(ct).ui_elements == old(ct).ui_elements
            + (if ocr_class(text@) == "ui_elements"@ { 1int } else { 0int }),
        final(ct).web_content == old(ct).web_content
            + (if ocr_class(text@) == "web_content"@ { 1int } else { 0int }),
        final(ct).general_text == old(ct).general_text
            + (if ocr_class(text@) == "general_text"@ { 1int } else { 0int }),
{
    proof {
        reveal_strlit("error_messages");
        reveal_strlit("detailed_content");
        reveal_strlit("ui_elements");
        reveal_strlit("web_content");
        reveal_strlit("general_text");
        assert(("error_messages"@).len() == 14);
        assert(("detailed_content"@).len() == 16);
        assert(("ui_elements"@).len() == 11);
        assert(("web_content"@).len() == 11);
        assert(("general_text"@).len() == 12);
        assert(("ui_elements"@)[0] != ("web_content"@)[0]);
    }
    let cls = classify_ocr_content(text);
    if crate::text::str_eq(cls.as_str(), "error_messages") {
        ct.error_messages = ct.error_messages + 1;
    } else if crate::text::str_eq(cls.as_str(), "detailed_content") {
        ct.detailed_content = ct.detailed_content + 1;
    } else if crate::text::str_eq(cls.as_str(), "ui_elements") {
        ct.ui_elements = ct.ui_elements + 1;
    } else if crate::text::str_eq(cls.as_str(), "web_content") {
        ct.web_content = ct.web_content + 1;
    } else {
        ct.general_text = ct.general_text + 1;
    }
}

/// Count one transcription under its audio class.
fn bump_audio_class(at: &mut AudioTypeCounts, text: &str)
    requires
        old(at).meeting < usize::MAX,
        old(at).long_conversation < usize::MAX,
        old(at).short_audio < usize::MAX,
    ensures
        final(at).meeting == old(at).meeting
            + (if audio_class(text@) == "meeting"@ { 1int } else { 0int }),
        final(at).long_conversation == old(at).long_conversation
            + (if audio_class(text@) == "long_conversation"@ { 1int } else { 0int }),
        final(at).short_audio == old(at).short_audio
            + (if audio_class(text@) == "short_audio"@ { 1int } else { 0int }),
{
    proof {
        reveal_strlit("meeting");
        reveal_strlit("long_conversation");
        reveal_strlit("short_audio");
        assert(("meeting"@).len() == 7);
        assert(("long_conversation"@).len() == 17);
        assert(("short_audio"@).len() == 11);
    }
    let cls = classify_audio(text);
    if crate::text::str_eq(cls.as_str(), "meeting") {
        at.meeting = at.meeting + 1;
    } else if crate::text::str_eq(cls.as_str(), "long_conversation") {
        at.long_conversation = at.long_conversation + 1;
    } else {
        at.short_audio = at.short_audio + 1;
    }
}

/// Keyword hits of one category over the whole row stream.
fn count_cat(rows: &Vec<Row>, kws: &Vec<String>) -> (total: usize)
    ensures
        total == cat_hits(rows@, views_of(kws@)),
{
    let ghost ks = views_of(kws@);
    let mut total: usize = 0;
    let mut i: usize = 0;
    while i < rows.len()
        invariant
            ks == views_of(kws@),
            i <= rows.len(),
            total == cat_hits(rows@.take(i as int), ks),
        decreases rows.len() - i,
    {
        proof {
            assert(rows@.take(i + 1).drop_last() =~= rows@.take(i as int));
            assert(rows@.take(i + 1).last() == rows@[i as int]);
        }
        let mut row_total: usize = 0;
        let ocr = opt_or_empty(&rows[i].ocr_text);
        if ocr.unicode_len() > 0 {
            let lowered = to_lowercase(ocr);
            row_total = crate::retrieval::count_hits(lowered.as_str(), kws);
        }
        let trans = opt_or_empty(&rows[i].transcription);
        if trans.unicode_len() > 0 {
            let lowered = to_lowercase(trans);
            let th = crate::retrieval::count_hits(lowered.as_str(), kws);
            row_total = sat_add(row_total, th);
        }
        proof {
            crate::retrieval::lemma_term_hits_le(lower_of(row_ocr(rows@[i as int])), ks);
            crate::retrieval::lemma_term_hits_le(lower_of(row_trans(rows@[i as int])), ks);
            assert(row_total == clamp_usize(row_cat_hits(rows@[i as int], ks) as int));
        }
        total = sat_add(total, row_total);
        i = i + 1;
    }
    proof {
        assert(rows@.take(rows@.len() as int) =~= rows@);
    }
    total
}

/// Keyword hits of one category in one lower-cased text, clamped into a
/// counter step.
pub open spec fn text_cat_hits(lower: Seq<char>, kws: Seq<Seq<char>>) -> usize {
    clamp_usize(term_hits(lower, kws) as int)
}

/// Scan one text against the fixed keyword taxonomy: every category
/// counter grows by that category's hits, hits of the coding and
/// debugging categories also accumulate into the coding indicator, and
/// communication hits into the communication indicator.
pub fn analyze_content_keywords(
    content: &str,
    productivity_indicators: &mut ActivityCounts,
    coding_indicators: &mut usize,
    communication_indicators: &mut usize,
)
    ensures
        ({
            let lower = lower_of(content@);
            &&& final(productivity_indicators).coding
                == sat_add_usize(old(productivity_indicators).coding, text_cat_hits(lower, coding_keywords()))
            &&& final(productivity_indicators).communication
                == sat_add_usize(old(productivity_indicators).communication, text_cat_hits(lower, communication_keywords()))
            &&& final(productivity_indicators).documentation
                == sat_add_usize(old(productivity_indicators).documentation, text_cat_hits(lower, documentation_keywords()))
            &&& final(productivity_indicators).research
                == sat_add_usize(old(productivity_indicators).research, text_cat_hits(lower, research_keywords()))
            &&& final(productivity_indicators).design
                == sat_add_usize(old(productivity_indicators).design, text_cat_hits(lower, design_keywords()))
            &&& final(productivity_indicators).data
                == sat_add_usize(old(productivity_indicators).data, text_cat_hits(lower, data_keywords()))
            &&& final(productivity_indicators).productivity
                == sat_add_usize(old(productivity_indicators).productivity, text_cat_hits(lower, productivity_keywords()))
            &&& final(productivity_indicators).debugging
                == sat_add_usize(old(productivity_indicators).debugging, text_cat_hits(lower, debugging_keywords()))
            &&& *final(coding_indicators) == sat_add_usize(
                sat_add_usize(*old(coding_indicators), text_cat_hits(lower, coding_keywords())),
                text_cat_hits(lower, debugging_keywords()),
            )
            &&& *final(communication_indicators) == sat_add_usize(
                *old(communication_indicators),
                text_cat_hits(lower, communication_keywords()),
            )
        }),
{
    let lowered = to_lowercase(content);
    let coding = crate::retrieval::count_hits(lowered.as_str(), &coding_keywords_exec());
    let communication = crate::retrieval::count_hits(lowered.as_str(), &communication_keywords_exec());
    let documentation = crate::retrieval::count_hits(lowered.as_str(), &documentation_keywords_exec());
    let research = crate::retrieval::count_hits(lowered.as_str(), &research_keywords_exec());
    let design = crate::retrieval::count_hits(lowered.as_str(), &design_keywords_exec());
    let data = crate::retrieval::count_hits(lowered.as_str(), &data_keywords_exec());
    let productivity = crate::retrieval::count_hits(lowered.as_str(), &productivity_keywords_exec());
    let debugging = crate::retrieval::count_hits(lowered.as_str(), &debugging_keywords_exec());
    productivity_indicators.coding = sat_add(productivity_indicators.coding, coding);
    productivity_indicators.communication = sat_add(productivity_indicators.communication, communication);
    productivity_indicators.documentation = sat_add(productivity_indicators.documentation, documentation);
    productivity_indicators.research = sat_add(productivity_indicators.research, research);
    productivity_indicators.design = sat_add(productivity_indicators.design, design);
    productivity_indicators.data = sat_add(productivity_indicators.data, data);
    productivity_indicators.productivity = sat_add(productivity_indicators.productivity, productivity);
    productivity_indicators.debugging = sat_add(productivity_indicators.debugging, debugging);
    *coding_indicators = sat_add(sat_add(*coding_indicators, coding), debugging);
    *communication_indicators = sat_add(*communication_indicators, communication);
}

/// Minutes between two epoch seconds, truncated toward zero.
fn compute_span_minutes(s: i64, e: i64) -> (r: i64)
    ensures
        r == span_minutes(s, e),
{
    if e >= s {
        let d = ((e as i128) - (s as i128)) as u128;
        let m = d / 60;
        proof {
            assert(m <= i64::MAX as u128);
        }
        m as i64
    } else {
        let d = ((s as i128) - (e as i128)) as u128;
        let m = d / 60;
        proof {
            assert(m <= i64::MAX as u128);
        }
        let v = m as i64;
        proof {
            assert(0int - (v as int) >= i64::MIN);
        }
        0i64 - v
    }
}

/// Compute the statistical report over a row stream: per-app counts and
/// text volume, window and website counts, hour buckets, content and
/// audio classes, keyword hits per activity category, overall counters,
/// and the session endpoints and span. Malformed timestamps are left out
/// of the hour buckets and the span, never an error.
pub fn analyze_sql_data_statistically(rows: &Vec<Row>) -> (rep: StatisticalReport)
    ensures
        rep.total_rows == rows@.len(),
        views_of(rep.app_usage@.map_values(|e: AppUsageEntry| e.name)) == app_keys(rows@),
        forall|j: int| 0 <= j < rep.app_usage@.len() ==> {
            let e = #[trigger] rep.app_usage@[j];
            e.count == app_count(rows@, e.name@) && e.content_len == app_content_len(rows@, e.name@)
        },
        views_of(rep.window_counts@.map_values(|e: KeyCount| e.key)) == window_keys(rows@),
        forall|j: int| 0 <= j < rep.window_counts@.len() ==> {
            let e = #[trigger] rep.window_counts@[j];
            e.count == window_count(rows@, e.key@)
        },
        views_of(rep.website_domains@.map_values(|e: KeyCount| e.key)) == domain_keys(rows@),
        forall|j: int| 0 <= j < rep.website_domains@.len() ==> {
            let e = #[trigger] rep.website_domains@[j];
            e.count == domain_count(rows@, e.key@)
        },
        rep.hourly@.map_values(|e: HourCount| e.hour) == hour_keys(rows@),
        forall|j: int| 0 <= j < rep.hourly@.len() ==> {
            let e = #[trigger] rep.hourly@[j];
            e.count == hour_count(rows@, e.hour)
        },
        rep.content_types.error_messages == ocr_class_count(rows@, "error_messages"@),
        rep.content_types.detailed_content == ocr_class_count(rows@, "detailed_content"@),
        rep.content_types.ui_elements == ocr_class_count(rows@, "ui_elements"@),
        rep.content_types.web_content == ocr_class_count(rows@, "web_content"@),
        rep.content_types.general_text == ocr_class_count(rows@, "general_text"@),
        rep.audio_types.meeting == audio_class_count(rows@, "meeting"@),
        rep.audio_types.long_conversation == audio_class_count(rows@, "long_conversation"@),
        rep.audio_types.short_audio == audio_class_count(rows@, "short_audio"@),
        rep.activity_categories.coding == cat_hits(rows@, coding_keywords()),
        rep.activity_categories.communication == cat_hits(rows@, communication_keywords()),
        rep.activity_categories.documentation == cat_hits(rows@, documentation_keywords()),
        rep.activity_categories.research == cat_hits(rows@, research_keywords()),
        rep.activity_categories.design == cat_hits(rows@, design_keywords()),
        rep.activity_categories.data == cat_hits(rows@, data_keywords()),
        rep.activity_categories.productivity == cat_hits(rows@, productivity_keywords()),
        rep.activity_categories.debugging == cat_hits(rows@, debugging_keywords()),
        rep.coding_indicators == sat_add_usize(cat_hits(rows@, coding_keywords()), cat_hits(rows@, debugging_keywords())),
        rep.communication_indicators == cat_hits(rows@, communication_keywords()),
        rep.total_ocr_chars == total_ocr_chars(rows@),
        rep.browser_usage == browser_usage(rows@),
        rep.total_audio_seconds == total_audio_secs(rows@),
        crate::chunker::view_opt(rep.session_start) == first_ts(rows@),
        crate::chunker::view_opt(rep.session_end) == last_ts(rows@),
        rep.session_minutes == session_span_minutes(rows@),
{
    // Per-app usage.
    let app_names = collect_app_keys(rows);
    let mut app_usage: Vec<AppUsageEntry> = Vec::new();
    let mut j: usize = 0;
    while j < app_names.len()
        invariant
            j <= app_names.len(),
            app_usage@.len() == j,
            forall|i: int| 0 <= i < j ==> (#[trigger] app_usage@[i]).name == app_names@[i],
            forall|i: int| 0 <= i < j ==> {
                let e = #[trigger] app_usage@[i];
                e.count == app_count(rows@, e.name@) && e.content_len == app_content_len(rows@, e.name@)
            },
        decreases app_names.len() - j,
    {
        let (count, content_len) = count_app(rows, app_names[j].as_str());
        app_usage.push(AppUsageEntry { name: app_names[j].clone(), count, content_len });
        j = j + 1;
    }
    proof {
        assert(app_usage@.map_values(|e: AppUsageEntry| e.name) =~= app_names@);
    }
    // Window buckets.
    let window_names = collect_window_keys(rows);
    let mut window_counts: Vec<KeyCount> = Vec::new();
    let mut j2: usize = 0;
    while j2 < window_names.len()
        invariant
            j2 <= window_names.len(),
            window_counts@.len() == j2,
            forall|i: int| 0 <= i < j2 ==> (#[trigger] window_counts@[i]).key == window_names@[i],
            forall|i: int| 0 <= i < j2 ==> {
                let e = #[trigger] window_counts@[i];
                e.count == window_count(rows@, e.key@)
            },
        decreases window_names.len() - j2,
    {
        let count = count_window(rows, window_names[j2].as_str());
        window_counts.push(KeyCount { key: window_names[j2].clone(), count });
        j2 = j2 + 1;
    }
    proof {
        assert(window_counts@.map_values(|e: KeyCount| e.key) =~= window_names@);
    }
    // Website domains.
    let domain_names = collect_domain_keys(rows);
    let mut website_domains: Vec<KeyCount> = Vec::new();
    let mut j3: usize = 0;
    while j3 < domain_names.len()
        invariant
            j3 <= domain_names.len(),
            website_domains@.len() == j3,
            forall|i: int| 0 <= i < j3 ==> (#[trigger] website_domains@[i]).key == domain_names@[i],
            forall|i: int| 0 <= i < j3 ==> {
                let e = #[trigger] website_domains@[i];
                e.count == domain_count(rows@, e.key@)
            },
        decreases domain_names.len() - j3,
    {
        let count = count_domain(rows, domain_names[j3].as_str());
        website_domains.push(KeyCount { key: domain_names[j3].clone(), count });
        j3 = j3 + 1;
    }
    proof {
        assert(website_domains@.map_values(|e: KeyCount| e.key) =~= domain_names@);
    }
    // Hour buckets.
    let hour_list = collect_hour_keys(rows);
    let mut hourly: Vec<HourCount> = Vec::new();
    let mut j4: usize = 0;
    while j4 < hour_list.len()
        invariant
            j4 <= hour_list.len(),
            hourly@.len() == j4,
            forall|i: int| 0 <= i < j4 ==> (#[trigger] hourly@[i]).hour == hour_list@[i],
            forall|i: int| 0 <= i < j4 ==> {
                let e = #[trigger] hourly@[i];
                e.count == hour_count(rows@, e.hour)
            },
        decreases hour_list.len() - j4,
    {
        let count = count_hour(rows, hour_list[j4]);
        hourly.push(HourCount { hour: hour_list[j4], count });
        j4 = j4 + 1;
    }
    proof {
        assert(hourly@.map_values(|e: HourCount| e.hour) =~= hour_list@);
    }
    // One pass for the classed counts, totals, and session endpoints.
    let mut ct = ContentTypeCounts {
        error_messages: 0,
        detailed_content: 0,
        ui_elements: 0,
        web_content: 0,
        general_text: 0,
    };
    let mut at = AudioTypeCounts { meeting: 0, long_conversation: 0, short_audio: 0 };
    let mut ocr_chars: usize = 0;
    let mut web_visits: usize = 0;
    let mut audio_secs: i64 = 0;
    let mut session_start: Option<String> = None;
    let mut session_end: Option<String> = None;
    let mut i: usize = 0;
    while i < rows.len()
        invariant
            i <= rows.len(),
            ct.error_messages == ocr_class_count(rows@.take(i as int), "error_messages"@),
            ct.detailed_content == ocr_class_count(rows@.take(i as int), "detailed_content"@),
            ct.ui_elements == ocr_class_count(rows@.take(i as int), "ui_elements"@),
            ct.web_content == ocr_class_count(rows@.take(i as int), "web_content"@),
            ct.general_text == ocr_class_count(rows@.take(i as int), "general_text"@),
            ct.error_messages <= i && ct.detailed_content <= i && ct.ui_elements <= i
                && ct.web_content <= i && ct.general_text <= i,
            at.meeting == audio_class_count(rows@.take(i as int), "meeting"@),
            at.long_conversation == audio_class_count(rows@.take(i as int), "long_conversation"@),
            at.short_audio == audio_class_count(rows@.take(i as int), "short_audio"@),
            at.meeting <= i && at.long_conversation <= i && at.short_audio <= i,
            ocr_chars == total_ocr_chars(rows@.take(i as int)),
            web_visits == browser_usage(rows@.take(i as int)),
            web_visits <= i,
            audio_secs == total_audio_secs(rows@.take(i as int)),
            crate::chunker::view_opt(session_start) == first_ts(rows@.take(i as int)),
            crate::chunker::view_opt(session_end) == last_ts(rows@.take(i as int)),
        decreases rows.len() - i,
    {
        proof {
            assert(rows@.take(i + 1).drop_last() =~= rows@.take(i as int));
            assert(rows@.take(i + 1).last() == rows@[i as int]);
        }
        let ocr = opt_or_empty(&rows[i].ocr_text);
        let olen = ocr.unicode_len();
        if olen > 0 {
            bump_content_class(&mut ct, ocr);
            ocr_chars = sat_add(ocr_chars, olen);
        }
        let trans = opt_or_empty(&rows[i].transcription);
        if trans.unicode_len() > 0 {
            bump_audio_class(&mut at, trans);
            let s = match rows[i].start_time {
                Some(v) => v,
                None => 0,
            };
            let e = match rows[i].end_time {
                Some(v) => v,
                None => 0,
            };
            let dur = sat_sub_signed(e, s);
            audio_secs = sat_add_signed(audio_secs, dur);
        }
        let url = opt_or_empty(&rows[i].browser_url);
        if url.unicode_len() > 0 {
            web_visits = web_visits + 1;
        }
        let ts = opt_or_empty(&rows[i].timestamp);
        if ts.unicode_len() > 0 {
            if session_start.is_none() {
                session_start = Some(String::from_str(ts));
            }
            session_end = Some(String::from_str(ts));
        }
        i = i + 1;
    }
    proof {
        assert(rows@.take(rows@.len() as int) =~= rows@);
    }
    // Keyword hits per category.
    let coding = count_cat(rows, &coding_keywords_exec());
    let communication = count_cat(rows, &communication_keywords_exec());
    let documentation = count_cat(rows, &documentation_keywords_exec());
    let research = count_cat(rows, &research_keywords_exec());
    let design = count_cat(rows, &design_keywords_exec());
    let data = count_cat(rows, &data_keywords_exec());
    let productivity = count_cat(rows, &productivity_keywords_exec());
    let debugging = count_cat(rows, &debugging_keywords_exec());
    let coding_indicators = sat_add(coding, debugging);
    // Session span.
    let session_minutes = match (&session_start, &session_end) {
        (Some(s), Some(e)) => {
            match (parse_timestamp(s.as_str()), parse_timestamp(e.as_str())) {
                (Some(a), Some(b)) => Some(compute_span_minutes(a, b)),
                _ => None,
            }
        },
        _ => None,
    };
    StatisticalReport {
        total_rows: rows.len(),
        app_usage,
        window_counts,
        website_domains,
        hourly,
        content_types: ct,
        audio_types: at,
        activity_categories: ActivityCounts {
            coding,
            communication,
            documentation,
            research,
            design,
            data,
            productivity,
            debugging,
        },
        coding_indicators,
        communication_indicators: communication,
        total_ocr_chars: ocr_chars,
        browser_usage: web_visits,
        total_audio_seconds: audio_secs,
        session_start,
        session_end,
        session_minutes,
    }
}

/// Subtract two signed counters, pinning at the bounds instead of
/// overflowing.
pub fn sat_sub_signed(a: i64, b: i64) -> (r: i64)
    ensures
        r as int == clamp_i64(a - b) as int,
{
    if b >= 0 {
        if a < i64::MIN + b {
            i64::MIN
        } else {
            a - b
        }
    } else {
        if a > i64::MAX + b {
            i64::MAX
        } else {
            a - b
        }
    }
}

/// Count the rows in hour bucket `h`.
fn count_hour(rows: &Vec<Row>, h: u32) -> (count: usize)
    ensures
        count == hour_count(rows@, h),
{
    let mut count: usize = 0;
    let mut i: usize = 0;
    while i < rows.len()
        invariant
            i <= rows.len(),
            count <= i,
            count == hour_count(rows@.take(i as int), h),
        decreases rows.len() - i,
    {
        proof {
            assert(rows@.take(i + 1).drop_last() =~= rows@.take(i as int));
            assert(rows@.take(i + 1).last() == rows@[i as int]);
        }
        match row_hour_exec(&rows[i]) {
            Some(v) => {
                if v == h {
                    count = count + 1;
                }
            },
            None => {},
        }
        i = i + 1;
    }
    proof {
        assert(rows@.take(rows@.len() as int) =~= rows@);
    }
    count
}

} // verus!
