use vstd::prelude::*;
use vstd::multiset::Multiset;

use crate::analyzer::{StatisticalReport, KeyCount};
use crate::text::{dec_str_of, u64_to_string, usize_to_string, str_eq};

verus! {

/// The report text for an empty analysis window.
pub open spec fn no_data_text() -> Seq<char> {
    "No data available for the selected time range"@
}

/// Audio minutes shown in the report: whole minutes of recorded audio,
/// never negative.
pub open spec fn audio_minutes_of(secs: i64) -> nat {
    if secs <= 0 {
        0
    } else {
        (secs as nat) / 60
    }
}

/// The opening of a non-empty report: the title, the generation stamp,
/// and the overview counters, each rendered in decimal.
pub open spec fn report_overview(rep: StatisticalReport, generated_on: Seq<char>) -> Seq<char> {
    "# 📊 **Activity Analysis Report**\n\n*Generated on "@ + generated_on + "*\n\n## 📈 **Quick Stats**\n**Total Activities**: "@
        + dec_str_of(rep.total_rows as nat) + " records\n**Applications Used**: "@
        + dec_str_of(rep.app_usage.len() as nat) + "\n**Text Content**: "@
        + dec_str_of(rep.total_ocr_chars as nat) + " characters\n**Audio Content**: "@
        + dec_str_of(audio_minutes_of(rep.total_audio_seconds)) + " minutes\n**Web Visits**: "@
        + dec_str_of(rep.browser_usage as nat) + "\n"@
}

/// Whole audio minutes of a second counter.
fn audio_minutes(secs: i64) -> (m: u64)
    ensures
        m as nat == audio_minutes_of(secs),
{
    if secs <= 0 {
        0
    } else {
        (secs as u64) / 60
    }
}

/// Sort counted keys by count, largest first. Ties keep no particular
/// order; the counts and keys themselves are unchanged as a multiset.
pub fn sort_key_counts_desc(v: Vec<KeyCount>) -> (r: Vec<KeyCount>)
    ensures
        r@.len() == v@.len(),
        forall|i: int, j: int| 0 <= i <= j < r@.len() ==> (#[trigger] r@[i]).count >= (#[trigger] r@[j]).count,
        r@.to_multiset() == v@.to_multiset(),
{
    broadcast use vstd::seq_lib::group_seq_properties;

    let ghost orig = v@;
    let mut v = v;
    let mut r: Vec<KeyCount> = Vec::new();
    proof {
        v@.to_multiset_ensures();
        assert(r@.to_multiset() =~= Multiset::<KeyCount>::empty());
        assert(r@.to_multiset().add(v@.to_multiset()) =~= orig.to_multiset());
    }
    while v.len() > 0
        invariant
            r@.to_multiset().add(v@.to_multiset()) == orig.to_multiset(),
            r@.len() + v@.len() == orig.len(),
            forall|i: int, j: int| 0 <= i <= j < r@.len() ==> (#[trigger] r@[i]).count >= (#[trigger] r@[j]).count,
            forall|i: int| 0 <= i < v@.len() ==> r@.len() == 0
                || (#[trigger] v@[i]).count <= r@[r@.len() - 1].count,
        decreases v.len(),
    {
        let mut m: usize = 0;
        let mut k: usize = 1;
        while k < v.len()
            invariant
                v@.len() > 0,
                k <= v@.len(),
                m < v@.len(),
                forall|i: int| 0 <= i < k ==> (#[trigger] v@[i]).count <= v@[m as int].count,
            decreases v.len() - k,
        {
            if v[k].count > v[m].count {
                m = k;
            }
            k = k + 1;
        }
        let ghost picked = v@[m as int];
        let ghost v_before = v@;
        let e = v.remove(m);
        proof {
            v_before.to_multiset_ensures();
            assert(v@.to_multiset() =~= v_before.to_multiset().remove(picked));
        }
        let ghost r_before = r@;
        r.push(e);
        proof {
            r_before.to_multiset_ensures();
            assert(r@.to_multiset() =~= r_before.to_multiset().insert(picked));
            assert(r@.to_multiset().add(v@.to_multiset()) =~= orig.to_multiset());
            assert(forall|i: int| 0 <= i < r_before.len() ==> r@[i] == r_before[i]);
            assert(forall|i: int| 0 <= i < v@.len() ==> v_before.remove(m as int)[i].count <= picked.count);
        }
    }
    r
}

/// The display label of a counter key: underscores become spaces and
/// each word is capitalized, for the fixed labels the report uses; any
/// other key is shown as it is.
pub open spec fn label_of(s: Seq<char>) -> Seq<char> {
    if s == "error_messages"@ { "Error Messages"@ }
    else if s == "detailed_content"@ { "Detailed Content"@ }
    else if s == "ui_elements"@ { "Ui Elements"@ }
    else if s == "web_content"@ { "Web Content"@ }
    else if s == "general_text"@ { "General Text"@ }
    else if s == "long_conversation"@ { "Long Conversation"@ }
    else if s == "short_audio"@ { "Short Audio"@ }
    else if s == "meeting"@ { "Meeting"@ }
    else if s == "coding"@ { "Coding"@ }
    else if s == "communication"@ { "Communication"@ }
    else if s == "documentation"@ { "Documentation"@ }
    else if s == "research"@ { "Research"@ }
    else if s == "design"@ { "Design"@ }
    else if s == "data"@ { "Data"@ }
    else if s == "productivity"@ { "Productivity"@ }
    else if s == "debugging"@ { "Debugging"@ }
    else if s == "general"@ { "General"@ }
    else { s }
}

/// Render the display label of a counter key.
fn display_label(s: &str) -> (r: String)
    ensures
        r@ == label_of(s@),
{
    if str_eq(s, "error_messages") {
        String::from_str("Error Messages")
    } else if str_eq(s, "detailed_content") {
        String::from_str("Detailed Content")
    } else if str_eq(s, "ui_elements") {
        String::from_str("Ui Elements")
    } else if str_eq(s, "web_content") {
        String::from_str("Web Content")
    } else if str_eq(s, "general_text") {
        String::from_str("General Text")
    } else if str_eq(s, "long_conversation") {
        String::from_str("Long Conversation")
    } else if str_eq(s, "short_audio") {
        String::from_str("Short Audio")
    } else if str_eq(s, "meeting") {
        String::from_str("Meeting")
    } else if str_eq(s, "coding") {
        String::from_str("Coding")
    } else if str_eq(s, "communication") {
        String::from_str("Communication")
    } else if str_eq(s, "documentation") {
        String::from_str("Documentation")
    } else if str_eq(s, "research") {
        String::from_str("Research")
    } else if str_eq(s, "design") {
        String::from_str("Design")
    } else if str_eq(s, "data") {
        String::from_str("Data")
    } else if str_eq(s, "productivity") {
        String::from_str("Productivity")
    } else if str_eq(s, "debugging") {
        String::from_str("Debugging")
    } else if str_eq(s, "general") {
        String::from_str("General")
    } else {
        String::from_str(s)
    }
}

/// The displayed percentage of `count` over `total`: floored, pinned at
/// the widest displayable value.
pub open spec fn percent_val(count: usize, total: usize) -> u64
    recommends
        total > 0,
{
    let p = (count * 100) / (total as int);
    if p > u64::MAX {
        u64::MAX
    } else {
        p as u64
    }
}

/// Percentage of `count` over `total`, floored, for display.
fn percent_of(count: usize, total: usize) -> (p: u64)
    requires
        total > 0,
    ensures
        p == percent_val(count, total),
{
    let p = ((count as u128) * 100) / (total as u128);
    if p > u64::MAX as u128 {
        u64::MAX
    } else {
        p as u64
    }
}

/// The fixed activity categories and their hit counts, in order.
pub open spec fn cat_pairs(rep: StatisticalReport) -> Seq<(Seq<char>, usize)> {
    seq![
        ("coding"@, rep.activity_categories.coding),
        ("communication"@, rep.activity_categories.communication),
        ("documentation"@, rep.activity_categories.documentation),
        ("research"@, rep.activity_categories.research),
        ("design"@, rep.activity_categories.design),
        ("data"@, rep.activity_categories.data),
        ("productivity"@, rep.activity_categories.productivity),
        ("debugging"@, rep.activity_categories.debugging),
    ]
}

/// The activity categories of a report as counted keys, fixed order.
fn category_counts(rep: &StatisticalReport) -> (v: Vec<KeyCount>)
    ensures
        v@.len() == 8,
        forall|i: int| 0 <= i < 8 ==> (#[trigger] v@[i]).key@ == cat_pairs(*rep)[i].0
            && v@[i].count == cat_pairs(*rep)[i].1,
{
    let mut v: Vec<KeyCount> = Vec::new();
    v.push(KeyCount { key: String::from_str("coding"), count: rep.activity_categories.coding });
    v.push(KeyCount { key: String::from_str("communication"), count: rep.activity_categories.communication });
    v.push(KeyCount { key: String::from_str("documentation"), count: rep.activity_categories.documentation });
    v.push(KeyCount { key: String::from_str("research"), count: rep.activity_categories.research });
    v.push(KeyCount { key: String::from_str("design"), count: rep.activity_categories.design });
    v.push(KeyCount { key: String::from_str("data"), count: rep.activity_categories.data });
    v.push(KeyCount { key: String::from_str("productivity"), count: rep.activity_categories.productivity });
    v.push(KeyCount { key: String::from_str("debugging"), count: rep.activity_categories.debugging });
    v
}

/// One rendered application line.
pub open spec fn apps_line(e: KeyCount, total: usize) -> Seq<char> {
    "**"@ + e.key@ + "** - "@ + dec_str_of(e.count as nat) + " activities ("@
        + dec_str_of(percent_val(e.count, total) as nat) + "%)\n"@
}

/// The rendered application lines, in order.
pub open spec fn apps_lines(s: Seq<KeyCount>, total: usize) -> Seq<char>
    decreases s.len(),
{
    if s.len() == 0 {
        Seq::empty()
    } else {
        apps_lines(s.drop_last(), total) + apps_line(s.last(), total)
    }
}

/// The applications section: the top eight ranked apps with their
/// activity counts and percentages.
pub open spec fn apps_section_text(ranked: Seq<KeyCount>, total: usize) -> Seq<char> {
    "## 💻 **Most Used Applications**\n"@ + apps_lines(crate::corpus::capped(ranked, 8), total) + "\n"@
}

/// One rendered peak-hour line.
pub open spec fn hours_line(e: KeyCount, total: usize) -> Seq<char> {
    "**"@ + e.key@ + ":00** - "@ + dec_str_of(e.count as nat) + " activities ("@
        + dec_str_of(percent_val(e.count, total) as nat) + "%)\n"@
}

/// The rendered peak-hour lines, in order.
pub open spec fn hours_lines(s: Seq<KeyCount>, total: usize) -> Seq<char>
    decreases s.len(),
{
    if s.len() == 0 {
        Seq::empty()
    } else {
        hours_lines(s.drop_last(), total) + hours_line(s.last(), total)
    }
}

/// The peak-hours section: the top five ranked hour buckets.
pub open spec fn hours_section_text(ranked: Seq<KeyCount>, total: usize) -> Seq<char> {
    "## ⏰ **Peak Activity Hours**\n"@ + hours_lines(crate::corpus::capped(ranked, 5), total) + "\n"@
}

/// Estimated minutes of a website: two per visit, pinned at the widest
/// displayable value.
pub open spec fn site_minutes_val(count: usize) -> u64 {
    if count <= usize::MAX / 2 {
        (count * 2) as u64
    } else {
        u64::MAX
    }
}

/// One rendered website line.
pub open spec fn sites_line(e: KeyCount) -> Seq<char> {
    "**"@ + e.key@ + "** - "@ + dec_str_of(e.count as nat) + " visits ("@
        + dec_str_of(site_minutes_val(e.count) as nat) + " minutes)\n"@
}

/// The rendered website lines, in order.
pub open spec fn sites_lines(s: Seq<KeyCount>) -> Seq<char>
    decreases s.len(),
{
    if s.len() == 0 {
        Seq::empty()
    } else {
        sites_lines(s.drop_last()) + sites_line(s.last())
    }
}

/// The websites section: the top eight ranked domains with their visit
/// counts and estimated minutes.
pub open spec fn sites_section_text(ranked: Seq<KeyCount>) -> Seq<char> {
    "## 🌐 **Top Websites**\n"@ + sites_lines(crate::corpus::capped(ranked, 8)) + "\n"@
}

/// The session-type verdict line, from the indicator totals.
pub open spec fn session_type_line(rep: StatisticalReport) -> Seq<char> {
    if rep.coding_indicators > rep.communication_indicators {
        "**Session Type**: Development-focused work\n"@
    } else if rep.communication_indicators > rep.coding_indicators {
        "**Session Type**: Communication-heavy session\n"@
    } else {
        "**Session Type**: Mixed activities\n"@
    }
}

/// The closing summary section, naming the main app and the primary
/// activity.
pub open spec fn summary_text(rep: StatisticalReport, main: Seq<char>, primary: Seq<char>) -> Seq<char> {
    "\n## 📋 **Summary**\n**Main App**: "@ + main + "\n**Primary Activity**: "@ + primary + "\n"@
        + session_type_line(rep) + "\n*Analyzed "@ + dec_str_of(rep.total_rows as nat)
        + " activities across "@ + dec_str_of(rep.app_usage.len() as nat) + " applications*"@
}

/// `m` names an app of maximal activity count, or "Unknown" when no app
/// was seen.
pub open spec fn main_app_ok(rep: StatisticalReport, m: Seq<char>) -> bool {
    if rep.app_usage@.len() == 0 {
        m == "Unknown"@
    } else {
        exists|j: int| 0 <= j < rep.app_usage@.len() && (#[trigger] rep.app_usage@[j]).name@ == m
            && forall|k: int| 0 <= k < rep.app_usage@.len()
                ==> (#[trigger] rep.app_usage@[k]).count <= rep.app_usage@[j].count
    }
}

/// `p` is the label of a category of maximal (positive) hit count, or
/// "General" when no category had a hit.
pub open spec fn primary_label_ok(rep: StatisticalReport, p: Seq<char>) -> bool {
    if forall|j: int| 0 <= j < 8 ==> (#[trigger] cat_pairs(rep)[j]).1 == 0 {
        p == "General"@
    } else {
        exists|j: int| 0 <= j < 8 && (#[trigger] cat_pairs(rep)[j]).1 > 0
            && p == label_of(cat_pairs(rep)[j].0)
            && forall|k: int| 0 <= k < 8 ==> (#[trigger] cat_pairs(rep)[k]).1 <= cat_pairs(rep)[j].1
    }
}

/// One counted entry per app of the report, in order.
pub open spec fn apps_rank_src_ok(entries: Seq<KeyCount>, rep: StatisticalReport) -> bool {
    &&& entries.len() == rep.app_usage@.len()
    &&& forall|i: int| 0 <= i < entries.len() ==> (#[trigger] entries[i]).key == rep.app_usage@[i].name
        && entries[i].count == rep.app_usage@[i].count
}

/// One counted entry per hour bucket of the report, in order, labelled
/// with the hour in decimal.
pub open spec fn hours_rank_src_ok(entries: Seq<KeyCount>, rep: StatisticalReport) -> bool {
    &&& entries.len() == rep.hourly@.len()
    &&& forall|i: int| 0 <= i < entries.len() ==> (#[trigger] entries[i]).key@
        == dec_str_of(rep.hourly@[i].hour as nat) && entries[i].count == rep.hourly@[i].count
}

/// One counted entry per website domain of the report, in order.
pub open spec fn sites_rank_src_ok(entries: Seq<KeyCount>, rep: StatisticalReport) -> bool {
    &&& entries.len() == rep.website_domains@.len()
    &&& forall|i: int| 0 <= i < entries.len() ==> (#[trigger] entries[i]).key == rep.website_domains@[i].key
        && entries[i].count == rep.website_domains@[i].count
}

/// The report carries the applications section rendered from a ranking
/// of exactly the report's per-app counts.
pub open spec fn apps_claim(rep: StatisticalReport, text: Seq<char>) -> bool {
    exists|ranked: Seq<KeyCount>, entries: Seq<KeyCount>| {
        &&& #[trigger] apps_rank_src_ok(entries, rep)
        &&& #[trigger] crate::corpus::ranked_desc(ranked, entries)
        &&& crate::text::contains_seq(text, apps_section_text(ranked, rep.total_rows))
    }
}

/// The report carries the peak-hours section rendered from a ranking of
/// exactly the report's hour buckets.
pub open spec fn hours_claim(rep: StatisticalReport, text: Seq<char>) -> bool {
    exists|ranked: Seq<KeyCount>, entries: Seq<KeyCount>| {
        &&& #[trigger] hours_rank_src_ok(entries, rep)
        &&& #[trigger] crate::corpus::ranked_desc(ranked, entries)
        &&& crate::text::contains_seq(text, hours_section_text(ranked, rep.total_rows))
    }
}

/// The report carries the websites section rendered from a ranking of
/// exactly the report's domain counts.
pub open spec fn sites_claim(rep: StatisticalReport, text: Seq<char>) -> bool {
    exists|ranked: Seq<KeyCount>, entries: Seq<KeyCount>| {
        &&& #[trigger] sites_rank_src_ok(entries, rep)
        &&& #[trigger] crate::corpus::ranked_desc(ranked, entries)
        &&& crate::text::contains_seq(text, sites_section_text(ranked))
    }
}

/// The report ends with the summary section, naming a maximal-count app
/// and the label of a maximal-count category.
pub open spec fn summary_claim(rep: StatisticalReport, text: Seq<char>) -> bool {
    exists|main: Seq<char>, primary: Seq<char>| {
        &&& #[trigger] main_app_ok(rep, main)
        &&& #[trigger] primary_label_ok(rep, primary)
        &&& summary_text(rep, main, primary).is_suffix_of(text)
    }
}

/// A run of text survives extension on the right.
proof fn lemma_contains_extend(a: Seq<char>, b: Seq<char>, x: Seq<char>)
    requires
        crate::text::contains_seq(a, x),
    ensures
        crate::text::contains_seq(a + b, x),
{
    let k = choose|k: int| crate::text::match_at(a, x, k);
    assert((a + b).subrange(k, k + x.len() as int) =~= a.subrange(k, k + x.len() as int));
    assert(crate::text::match_at(a + b, x, k));
}

/// A run of text survives in any extension that keeps it as a prefix.
proof fn lemma_contains_prefix_extend(a: Seq<char>, b: Seq<char>, x: Seq<char>)
    requires
        a.len() <= b.len(),
        b.take(a.len() as int) == a,
        crate::text::contains_seq(a, x),
    ensures
        crate::text::contains_seq(b, x),
{
    let k = choose|k: int| crate::text::match_at(a, x, k);
    assert(b.subrange(k, k + x.len() as int) =~= a.subrange(k, k + x.len() as int)) by {
        assert(forall|t: int| 0 <= t < a.len() ==> #[trigger] b.take(a.len() as int)[t] == a[t]);
    }
    assert(crate::text::match_at(b, x, k));
}

/// The three ranked-section claims survive in any extension that keeps
/// the text as a prefix.
proof fn lemma_claims_prefix_extend(rep: StatisticalReport, a: Seq<char>, b: Seq<char>)
    requires
        a.len() <= b.len(),
        b.take(a.len() as int) == a,
    ensures
        apps_claim(rep, a) ==> apps_claim(rep, b),
        hours_claim(rep, a) ==> hours_claim(rep, b),
        sites_claim(rep, a) ==> sites_claim(rep, b),
{
    if apps_claim(rep, a) {
        let (ranked, entries) = choose|ranked: Seq<KeyCount>, entries: Seq<KeyCount>|
            #[trigger] apps_rank_src_ok(entries, rep)
            && #[trigger] crate::corpus::ranked_desc(ranked, entries)
            && crate::text::contains_seq(a, apps_section_text(ranked, rep.total_rows));
        lemma_contains_prefix_extend(a, b, apps_section_text(ranked, rep.total_rows));
    }
    if hours_claim(rep, a) {
        let (ranked, entries) = choose|ranked: Seq<KeyCount>, entries: Seq<KeyCount>|
            #[trigger] hours_rank_src_ok(entries, rep)
            && #[trigger] crate::corpus::ranked_desc(ranked, entries)
            && crate::text::contains_seq(a, hours_section_text(ranked, rep.total_rows));
        lemma_contains_prefix_extend(a, b, hours_section_text(ranked, rep.total_rows));
    }
    if sites_claim(rep, a) {
        let (ranked, entries) = choose|ranked: Seq<KeyCount>, entries: Seq<KeyCount>|
            #[trigger] sites_rank_src_ok(entries, rep)
            && #[trigger] crate::corpus::ranked_desc(ranked, entries)
            && crate::text::contains_seq(a, sites_section_text(ranked));
        lemma_contains_prefix_extend(a, b, sites_section_text(ranked));
    }
}

/// The first entry of a ranking carries a maximal count.
proof fn lemma_ranked_first_max(ranked: Seq<KeyCount>, entries: Seq<KeyCount>)
    requires
        crate::corpus::ranked_desc(ranked, entries),
        ranked.len() > 0,
    ensures
        forall|k: int| 0 <= k < entries.len() ==> (#[trigger] entries[k]).count <= ranked[0].count,
        exists|j: int| 0 <= j < entries.len() && #[trigger] entries[j] == ranked[0],
{
    entries.to_multiset_ensures();
    ranked.to_multiset_ensures();
    assert forall|k: int| 0 <= k < entries.len() implies (#[trigger] entries[k]).count
        <= ranked[0].count by {
        assert(entries.contains(entries[k]));
        assert(entries.to_multiset().count(entries[k]) > 0);
        assert(ranked.to_multiset().count(entries[k]) > 0);
        assert(ranked.contains(entries[k]));
        let idx = choose|idx: int| 0 <= idx < ranked.len() && ranked[idx] == entries[k];
        assert(ranked[idx].count <= ranked[0].count);
    }
    assert(ranked.contains(ranked[0]));
    assert(ranked.to_multiset().count(ranked[0]) > 0);
    assert(entries.to_multiset().count(ranked[0]) > 0);
    assert(entries.contains(ranked[0]));
    let j = choose|j: int| 0 <= j < entries.len() && entries[j] == ranked[0];
    assert(entries[j] == ranked[0]);
}

/// Render the applications section from a ranking.
fn apps_section(ranked: &Vec<KeyCount>, total: usize) -> (r: String)
    requires
        total > 0,
    ensures
        r@ == apps_section_text(ranked@, total),
{
    let m = if ranked.len() < 8 {
        ranked.len()
    } else {
        8
    };
    let mut r = String::from_str("## 💻 **Most Used Applications**\n");
    let ghost header = r@;
    let mut k: usize = 0;
    proof {
        assert(apps_lines(ranked@.take(0), total) =~= Seq::<char>::empty());
    }
    while k < m
        invariant
            total > 0,
            m <= ranked@.len(),
            k <= m,
            r@ == header + apps_lines(ranked@.take(k as int), total),
        decreases m - k,
    {
        proof {
            assert(ranked@.take(k + 1).drop_last() =~= ranked@.take(k as int));
            assert(ranked@.take(k + 1).last() == ranked@[k as int]);
        }
        r.append("**");
        r.append(ranked[k].key.as_str());
        r.append("** - ");
        r.append(usize_to_string(ranked[k].count).as_str());
        r.append(" activities (");
        r.append(u64_to_string(percent_of(ranked[k].count, total)).as_str());
        r.append("%)\n");
        k = k + 1;
    }
    proof {
        if ranked@.len() < 8 {
            assert(ranked@.take(m as int) =~= ranked@);
        } else {
            assert(ranked@.take(m as int) == crate::corpus::capped(ranked@, 8));
        }
    }
    r.append("\n");
    r
}

/// Render the peak-hours section from a ranking.
fn hours_section(ranked: &Vec<KeyCount>, total: usize) -> (r: String)
    requires
        total > 0,
    ensures
        r@ == hours_section_text(ranked@, total),
{
    let m = if ranked.len() < 5 {
        ranked.len()
    } else {
        5
    };
    let mut r = String::from_str("## ⏰ **Peak Activity Hours**\n");
    let ghost header = r@;
    let mut k: usize = 0;
    proof {
        assert(hours_lines(ranked@.take(0), total) =~= Seq::<char>::empty());
    }
    while k < m
        invariant
            total > 0,
            m <= ranked@.len(),
            k <= m,
            r@ == header + hours_lines(ranked@.take(k as int), total),
        decreases m - k,
    {
        proof {
            assert(ranked@.take(k + 1).drop_last() =~= ranked@.take(k as int));
            assert(ranked@.take(k + 1).last() == ranked@[k as int]);
        }
        r.append("**");
        r.append(ranked[k].key.as_str());
        r.append(":00** - ");
        r.append(usize_to_string(ranked[k].count).as_str());
        r.append(" activities (");
        r.append(u64_to_string(percent_of(ranked[k].count, total)).as_str());
        r.append("%)\n");
        k = k + 1;
    }
    proof {
        if ranked@.len() < 5 {
            assert(ranked@.take(m as int) =~= ranked@);
        } else {
            assert(ranked@.take(m as int) == crate::corpus::capped(ranked@, 5));
        }
    }
    r.append("\n");
    r
}

/// Render the websites section from a ranking.
fn sites_section(ranked: &Vec<KeyCount>) -> (r: String)
    ensures
        r@ == sites_section_text(ranked@),
{
    let m = if ranked.len() < 8 {
        ranked.len()
    } else {
        8
    };
    let mut r = String::from_str("## 🌐 **Top Websites**\n");
    let ghost header = r@;
    let mut k: usize = 0;
    proof {
        assert(sites_lines(ranked@.take(0)) =~= Seq::<char>::empty());
    }
    while k < m
        invariant
            m <= ranked@.len(),
            k <= m,
            r@ == header + sites_lines(ranked@.take(k as int)),
        decreases m - k,
    {
        proof {
            assert(ranked@.take(k + 1).drop_last() =~= ranked@.take(k as int));
            assert(ranked@.take(k + 1).last() == ranked@[k as int]);
        }
        r.append("**");
        r.append(ranked[k].key.as_str());
        r.append("** - ");
        r.append(usize_to_string(ranked[k].count).as_str());
        r.append(" visits (");
        let minutes = if ranked[k].count <= usize::MAX / 2 {
            (ranked[k].count as u64) * 2
        } else {
            u64::MAX
        };
        r.append(u64_to_string(minutes).as_str());
        r.append(" minutes)\n");
        k = k + 1;
    }
    proof {
        if ranked@.len() < 8 {
            assert(ranked@.take(m as int) =~= ranked@);
        } else {
            assert(ranked@.take(m as int) == crate::corpus::capped(ranked@, 8));
        }
    }
    r.append("\n");
    r
}

/// Append the session line and the usage sections: top applications,
/// peak hours, and activity types.
#[verifier::rlimit(100)]
#[verifier::spinoff_prover]
fn append_usage_sections(out: &mut String, rep: &StatisticalReport, sorted_apps: &Vec<KeyCount>, session_minutes: u64)
    requires
        rep.total_rows > 0,
        exists|entries: Seq<KeyCount>| #[trigger] apps_rank_src_ok(entries, *rep)
            && crate::corpus::ranked_desc(sorted_apps@, entries),
    ensures
        final(out)@.len() >= old(out)@.len(),
        final(out)@.take(old(out)@.len() as int) == old(out)@,
        apps_claim(*rep, final(out)@),
        rep.hourly@.len() > 0 ==> hours_claim(*rep, final(out)@),
{
    let ghost base = out@;
    let total = rep.total_rows;
    if session_minutes > 0 {
        out.append("**Session Duration**: ");
        out.append(u64_to_string(session_minutes).as_str());
        out.append(" minutes (");
        out.append(u64_to_string(session_minutes / 60).as_str());
        out.append(" hours)\n");
    }
    out.append("\n");
    let apps_text = apps_section(sorted_apps, total);
    let ghost before_apps = out@;
    out.append(apps_text.as_str());
    proof {
        assert(out@.subrange(before_apps.len() as int,
            before_apps.len() + apps_text@.len() as int) =~= apps_text@);
        assert(crate::text::match_at(out@, apps_text@, before_apps.len() as int));
        assert(crate::text::contains_seq(out@, apps_section_text(sorted_apps@, total)));
        assert(apps_claim(*rep, out@));
    }
    if rep.hourly.len() > 0 {
        let mut hour_counts: Vec<KeyCount> = Vec::new();
        let mut i3: usize = 0;
        while i3 < rep.hourly.len()
            invariant
                i3 <= rep.hourly@.len(),
                hour_counts@.len() == i3,
                forall|i: int| 0 <= i < i3 ==> (#[trigger] hour_counts@[i]).key@
                    == dec_str_of(rep.hourly@[i].hour as nat)
                    && hour_counts@[i].count == rep.hourly@[i].count,
            decreases rep.hourly@.len() - i3,
        {
            hour_counts.push(KeyCount {
                key: u64_to_string(rep.hourly[i3].hour as u64),
                count: rep.hourly[i3].count,
            });
            i3 = i3 + 1;
        }
        let ghost hour_entries = hour_counts@;
        let sorted_hours = sort_key_counts_desc(hour_counts);
        let hours_text = hours_section(&sorted_hours, total);
        let ghost before_hours = out@;
        out.append(hours_text.as_str());
        proof {
            assert(out@.subrange(before_hours.len() as int,
                before_hours.len() + hours_text@.len() as int) =~= hours_text@);
            assert(crate::text::match_at(out@, hours_text@, before_hours.len() as int));
            assert(hours_rank_src_ok(hour_entries, *rep));
            assert(crate::corpus::ranked_desc(sorted_hours@, hour_entries));
            assert(hours_claim(*rep, out@));
            assert(out@.take(before_hours.len() as int) =~= before_hours);
            lemma_claims_prefix_extend(*rep, before_hours, out@);
        }
    }
    // Activity types, assembled apart and appended whole.
    let mut act = String::from_str("## 🎯 **Activity Types**\n");
    let cats = category_counts(rep);
    let mut any_cat = false;
    let mut i5: usize = 0;
    while i5 < cats.len()
        decreases cats.len() - i5,
    {
        if cats[i5].count > 0 {
            any_cat = true;
        }
        i5 = i5 + 1;
    }
    if any_cat {
        let sorted_cats = sort_key_counts_desc(cats);
        let mut shown3: usize = 0;
        let mut i6: usize = 0;
        while i6 < sorted_cats.len() && shown3 < 6
            decreases sorted_cats.len() - i6,
        {
            if sorted_cats[i6].count > 0 {
                act.append("**");
                act.append(display_label(sorted_cats[i6].key.as_str()).as_str());
                act.append("** - ");
                act.append(usize_to_string(sorted_cats[i6].count).as_str());
                act.append(" activities\n");
            }
            shown3 = shown3 + 1;
            i6 = i6 + 1;
        }
    } else {
        act.append("No specific activity patterns detected\n");
    }
    act.append("\n");
    let ghost before_act = out@;
    out.append(act.as_str());
    proof {
        assert(out@.take(before_act.len() as int) =~= before_act);
        lemma_claims_prefix_extend(*rep, before_act, out@);
        assert(out@.take(base.len() as int) =~= base);
    }
}

/// Append the content sections: content classes, audio classes, the time
/// breakdown, per-app estimated minutes, and top websites.
#[verifier::rlimit(100)]
#[verifier::spinoff_prover]
fn append_detail_sections(out: &mut String, rep: &StatisticalReport, sorted_apps: &Vec<KeyCount>, session_minutes: u64)
    requires
        rep.total_rows > 0,
    ensures
        final(out)@.len() >= old(out)@.len(),
        final(out)@.take(old(out)@.len() as int) == old(out)@,
        rep.website_domains@.len() > 0 ==> sites_claim(*rep, final(out)@),
{
    let ghost base = out@;
    let total = rep.total_rows;
    // Content overview, assembled apart and appended whole.
    let mut buf = String::from_str("## 📄 **Content Overview**\n");
    let mut content_counts: Vec<KeyCount> = Vec::new();
    content_counts.push(KeyCount { key: String::from_str("error_messages"), count: rep.content_types.error_messages });
    content_counts.push(KeyCount { key: String::from_str("detailed_content"), count: rep.content_types.detailed_content });
    content_counts.push(KeyCount { key: String::from_str("ui_elements"), count: rep.content_types.ui_elements });
    content_counts.push(KeyCount { key: String::from_str("web_content"), count: rep.content_types.web_content });
    content_counts.push(KeyCount { key: String::from_str("general_text"), count: rep.content_types.general_text });
    let mut i7: usize = 0;
    while i7 < content_counts.len()
        invariant
            total > 0,
        decreases content_counts.len() - i7,
    {
        if content_counts[i7].count > 0 {
            buf.append("**");
            buf.append(display_label(content_counts[i7].key.as_str()).as_str());
            buf.append("** - ");
            buf.append(usize_to_string(content_counts[i7].count).as_str());
            buf.append(" items (");
            buf.append(u64_to_string(percent_of(content_counts[i7].count, total)).as_str());
            buf.append("%)\n");
        }
        i7 = i7 + 1;
    }
    let audio_total = rep.audio_types.meeting > 0 || rep.audio_types.long_conversation > 0
        || rep.audio_types.short_audio > 0;
    if audio_total {
        buf.append("\n**Audio:**\n");
        let mut audio_counts: Vec<KeyCount> = Vec::new();
        audio_counts.push(KeyCount { key: String::from_str("meeting"), count: rep.audio_types.meeting });
        audio_counts.push(KeyCount { key: String::from_str("long_conversation"), count: rep.audio_types.long_conversation });
        audio_counts.push(KeyCount { key: String::from_str("short_audio"), count: rep.audio_types.short_audio });
        let mut i8: usize = 0;
        while i8 < audio_counts.len()
            decreases audio_counts.len() - i8,
        {
            if audio_counts[i8].count > 0 {
                buf.append("**");
                buf.append(display_label(audio_counts[i8].key.as_str()).as_str());
                buf.append("** - ");
                buf.append(usize_to_string(audio_counts[i8].count).as_str());
                buf.append(" recordings\n");
            }
            i8 = i8 + 1;
        }
    }
    buf.append("\n");
    if session_minutes > 0 {
        buf.append("## ⏱️ **Time Breakdown**\n**Session Duration**: ");
        buf.append(u64_to_string(session_minutes).as_str());
        buf.append(" minutes (");
        buf.append(u64_to_string(session_minutes / 60).as_str());
        buf.append(" hours)\n**Activity Rate**: ");
        buf.append(u64_to_string((total as u64) / session_minutes).as_str());
        buf.append(" activities per minute\n\n");
    }
    // App time usage: one estimated minute per activity.
    if sorted_apps.len() > 0 {
        buf.append("## 🕐 **App Time Usage**\n");
        let mut shown4: usize = 0;
        let mut i9: usize = 0;
        while i9 < sorted_apps.len() && shown4 < 6
            invariant
                total > 0,
            decreases sorted_apps.len() - i9,
        {
            buf.append("**");
            buf.append(sorted_apps[i9].key.as_str());
            buf.append("** - ");
            buf.append(usize_to_string(sorted_apps[i9].count).as_str());
            buf.append(" minutes");
            if session_minutes > 0 {
                buf.append(" (");
                buf.append(u64_to_string(percent_of(sorted_apps[i9].count, total)).as_str());
                buf.append("%)");
            }
            buf.append("\n");
            shown4 = shown4 + 1;
            i9 = i9 + 1;
        }
        buf.append("\n");
    }
    out.append(buf.as_str());
    // Top websites: two estimated minutes per visit.
    if rep.website_domains.len() > 0 {
        let mut site_counts: Vec<KeyCount> = Vec::new();
        let mut i10: usize = 0;
        while i10 < rep.website_domains.len()
            invariant
                i10 <= rep.website_domains@.len(),
                site_counts@.len() == i10,
                forall|i: int| 0 <= i < i10 ==> (#[trigger] site_counts@[i]).key
                    == rep.website_domains@[i].key
                    && site_counts@[i].count == rep.website_domains@[i].count,
            decreases rep.website_domains@.len() - i10,
        {
            site_counts.push(KeyCount {
                key: rep.website_domains[i10].key.clone(),
                count: rep.website_domains[i10].count,
            });
            i10 = i10 + 1;
        }
        let ghost site_entries = site_counts@;
        let sorted_sites = sort_key_counts_desc(site_counts);
        let sites_text = sites_section(&sorted_sites);
        let ghost before_sites = out@;
        out.append(sites_text.as_str());
        proof {
            assert(out@.subrange(before_sites.len() as int,
                before_sites.len() + sites_text@.len() as int) =~= sites_text@);
            assert(crate::text::match_at(out@, sites_text@, before_sites.len() as int));
            assert(sites_rank_src_ok(site_entries, *rep));
            assert(crate::corpus::ranked_desc(sorted_sites@, site_entries));
            assert(sites_claim(*rep, out@));
        }
    }
    proof {
        assert(out@.take(base.len() as int) =~= base);
    }
}

/// Append the qualitative insights and the closing summary.
#[verifier::rlimit(100)]
#[verifier::spinoff_prover]
fn append_final_sections(out: &mut String, rep: &StatisticalReport, sorted_apps: &Vec<KeyCount>)
    requires
        rep.total_rows > 0,
        exists|entries: Seq<KeyCount>| #[trigger] apps_rank_src_ok(entries, *rep)
            && crate::corpus::ranked_desc(sorted_apps@, entries),
    ensures
        final(out)@.len() >= old(out)@.len(),
        final(out)@.take(old(out)@.len() as int) == old(out)@,
        summary_claim(*rep, final(out)@),
{
    let total = rep.total_rows;
    let mut buf = String::from_str("## 💡 **Key Insights**\n");
    if rep.coding_indicators > 50 {
        buf.append("🔧 **High Development Activity** - Extensive coding work detected\n");
    } else if rep.coding_indicators > 15 {
        buf.append("💻 **Moderate Development Activity** - Regular coding work\n");
    } else if rep.coding_indicators > 0 {
        buf.append("⚡ **Light Development Activity** - Some coding work\n");
    }
    if rep.communication_indicators > 30 {
        buf.append("💬 **High Communication** - Significant messaging/collaboration\n");
    } else if rep.communication_indicators > 10 {
        buf.append("📞 **Moderate Communication** - Regular interactions\n");
    }
    let minutes_audio = audio_minutes(rep.total_audio_seconds);
    if minutes_audio > 60 {
        buf.append("🎤 **Audio Heavy Session** - ");
        buf.append(u64_to_string(minutes_audio).as_str());
        buf.append(" minutes of audio\n");
    }
    let avg_content = rep.total_ocr_chars / total;
    if avg_content > 200 {
        buf.append("📄 **Content Rich** - High text content per activity\n");
    }
    if rep.app_usage.len() > 8 {
        buf.append("🔄 **Multi-Tasking** - Many applications used\n");
    } else if rep.app_usage.len() < 4 {
        buf.append("🎯 **Focused Work** - Limited app switching\n");
    }
    out.append(buf.as_str());
    // The closing summary: main app, primary activity, session type.
    let main = if sorted_apps.len() > 0 {
        sorted_apps[0].key.clone()
    } else {
        String::from_str("Unknown")
    };
    proof {
        if sorted_apps@.len() > 0 {
            let entries = choose|entries: Seq<KeyCount>| #[trigger] apps_rank_src_ok(entries, *rep)
                && crate::corpus::ranked_desc(sorted_apps@, entries);
            lemma_ranked_first_max(sorted_apps@, entries);
            let j = choose|j: int| 0 <= j < entries.len() && #[trigger] entries[j] == sorted_apps@[0];
            assert(rep.app_usage@[j].name@ == main@);
            assert forall|k: int| 0 <= k < rep.app_usage@.len()
                implies (#[trigger] rep.app_usage@[k]).count <= rep.app_usage@[j].count by {
                assert(entries[k].count <= sorted_apps@[0].count);
                assert(entries[k].count == rep.app_usage@[k].count);
                assert(entries[j].count == rep.app_usage@[j].count);
            }
            assert(main_app_ok(*rep, main@));
        } else {
            let entries = choose|entries: Seq<KeyCount>| #[trigger] apps_rank_src_ok(entries, *rep)
                && crate::corpus::ranked_desc(sorted_apps@, entries);
            assert(rep.app_usage@.len() == 0);
            assert(main_app_ok(*rep, main@));
        }
    }
    let cats2 = category_counts(rep);
    let ghost cat_entries = cats2@;
    let sorted_cats2 = sort_key_counts_desc(cats2);
    let primary = if sorted_cats2.len() > 0 && sorted_cats2[0].count > 0 {
        display_label(sorted_cats2[0].key.as_str())
    } else {
        String::from_str("General")
    };
    proof {
        lemma_ranked_first_max(sorted_cats2@, cat_entries);
        let j = choose|j: int| 0 <= j < cat_entries.len() && #[trigger] cat_entries[j] == sorted_cats2@[0];
        if sorted_cats2@[0].count > 0 {
            assert(cat_pairs(*rep)[j].1 > 0);
            assert(primary@ == label_of(cat_pairs(*rep)[j].0));
            assert forall|k: int| 0 <= k < 8 implies (#[trigger] cat_pairs(*rep)[k]).1
                <= cat_pairs(*rep)[j].1 by {
                assert(cat_entries[k].count <= sorted_cats2@[0].count);
                assert(cat_entries[k].count == cat_pairs(*rep)[k].1);
                assert(cat_entries[j].count == cat_pairs(*rep)[j].1);
            }
            assert(primary_label_ok(*rep, primary@));
        } else {
            assert forall|k: int| 0 <= k < 8 implies (#[trigger] cat_pairs(*rep)[k]).1 == 0 by {
                assert(cat_entries[k].count <= sorted_cats2@[0].count);
                assert(sorted_cats2@[0].count == 0);
                assert(cat_entries[k].count == cat_pairs(*rep)[k].1);
            }
            assert(primary_label_ok(*rep, primary@));
        }
    }
    let mut tail = String::from_str("\n## 📋 **Summary**\n**Main App**: ");
    tail.append(main.as_str());
    tail.append("\n**Primary Activity**: ");
    tail.append(primary.as_str());
    tail.append("\n");
    if rep.coding_indicators > rep.communication_indicators {
        tail.append("**Session Type**: Development-focused work\n");
    } else if rep.communication_indicators > rep.coding_indicators {
        tail.append("**Session Type**: Communication-heavy session\n");
    } else {
        tail.append("**Session Type**: Mixed activities\n");
    }
    tail.append("\n*Analyzed ");
    tail.append(usize_to_string(total).as_str());
    tail.append(" activities across ");
    tail.append(usize_to_string(rep.app_usage.len()).as_str());
    tail.append(" applications*");
    proof {
        assert(tail@ == summary_text(*rep, main@, primary@));
    }
    let ghost before_tail = out@;
    out.append(tail.as_str());
    proof {
        assert(out@.skip(before_tail.len() as int) =~= tail@);
        assert(tail@.is_suffix_of(out@)) by {
            assert(out@.subrange(out@.len() - tail@.len() as int, out@.len() as int) =~= tail@);
        }
        assert(summary_claim(*rep, out@));
        assert(out@.take(old(out)@.len() as int) =~= old(out)@);
    }
}

/// Render a statistical report as structured sections: overview counters,
/// top applications, peak hours, activity and content histograms, time
/// breakdowns, top websites, threshold-based insights, and a closing
/// summary. An empty analysis window yields the fixed no-data text. Any
/// other report opens with the exact overview; carries the applications,
/// peak-hours, and websites sections rendered from rankings of exactly
/// its counts, capped and sorted non-increasing; and closes with the
/// summary naming a maximal-count app and category.
#[verifier::rlimit(100)]
#[verifier::spinoff_prover]
pub fn generate_statistical_report(rep: &StatisticalReport, generated_on: &str) -> (r: String)
    ensures
        rep.total_rows == 0 ==> r@ == no_data_text(),
        rep.total_rows > 0 ==> report_overview(*rep, generated_on@).is_prefix_of(r@),
        rep.total_rows > 0 ==> apps_claim(*rep, r@),
        rep.total_rows > 0 && rep.hourly@.len() > 0 ==> hours_claim(*rep, r@),
        rep.total_rows > 0 && rep.website_domains@.len() > 0 ==> sites_claim(*rep, r@),
        rep.total_rows > 0 ==> summary_claim(*rep, r@),
{
    if rep.total_rows == 0 {
        return String::from_str("No data available for the selected time range");
    }
    let mut out = String::from_str("# 📊 **Activity Analysis Report**\n\n*Generated on ");
    out.append(generated_on);
    out.append("*\n\n## 📈 **Quick Stats**\n**Total Activities**: ");
    out.append(usize_to_string(rep.total_rows).as_str());
    out.append(" records\n**Applications Used**: ");
    out.append(usize_to_string(rep.app_usage.len()).as_str());
    out.append("\n**Text Content**: ");
    out.append(usize_to_string(rep.total_ocr_chars).as_str());
    out.append(" characters\n**Audio Content**: ");
    out.append(u64_to_string(audio_minutes(rep.total_audio_seconds)).as_str());
    out.append(" minutes\n**Web Visits**: ");
    out.append(usize_to_string(rep.browser_usage).as_str());
    out.append("\n");
    let ghost head = out@;
    proof {
        assert(head == report_overview(*rep, generated_on@));
    }
    let session_minutes = match rep.session_minutes {
        Some(m) => if m > 0 {
            m as u64
        } else {
            0
        },
        None => 0,
    };
    let mut app_counts: Vec<KeyCount> = Vec::new();
    let mut i: usize = 0;
    while i < rep.app_usage.len()
        invariant
            i <= rep.app_usage@.len(),
            app_counts@.len() == i,
            forall|j: int| 0 <= j < i ==> (#[trigger] app_counts@[j]).key == rep.app_usage@[j].name
                && app_counts@[j].count == rep.app_usage@[j].count,
        decreases rep.app_usage@.len() - i,
    {
        app_counts.push(KeyCount {
            key: rep.app_usage[i].name.clone(),
            count: rep.app_usage[i].count,
        });
        i = i + 1;
    }
    let ghost app_entries = app_counts@;
    let sorted_apps = sort_key_counts_desc(app_counts);
    proof {
        assert(apps_rank_src_ok(app_entries, *rep));
        assert(crate::corpus::ranked_desc(sorted_apps@, app_entries));
    }
    let ghost out0 = out@;
    append_usage_sections(&mut out, rep, &sorted_apps, session_minutes);
    proof {
        assert(out@.take(head.len() as int) =~= head);
    }
    let ghost out1 = out@;
    append_detail_sections(&mut out, rep, &sorted_apps, session_minutes);
    proof {
        assert(out@.take(head.len() as int) =~= head);
        lemma_claims_prefix_extend(*rep, out1, out@);
    }
    let ghost out2 = out@;
    append_final_sections(&mut out, rep, &sorted_apps);
    proof {
        assert(out@.take(head.len() as int) =~= head);
        lemma_claims_prefix_extend(*rep, out2, out@);
        assert(report_overview(*rep, generated_on@).is_prefix_of(out@)) by {
            assert(out@.take(head.len() as int) == head);
        }
    }
    out
}

} // verus!
