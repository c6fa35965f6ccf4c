use vstd::prelude::*;

use crate::text::{str_eq, contains_seq, contains_sub, lower_of, to_lowercase, words_of, views_of, split_words};
use crate::chunker::{DataChunk, clone_chunk};

verus! {

/// Words stripped from a query before matching: query boilerplate and
/// common function words that would match nearly every chunk.
pub open spec fn is_stop_word(w: Seq<char>) -> bool {
    w == "f.timestamp"@
        || w == "datetime"@
        || w == "now"@
        || w == "hour"@
        || w == "day"@
        || w == "month"@
        || w == "year"@
        || w == "the"@
        || w == "for"@
        || w == "and"@
        || w == "or"@
        || w == "in"@
        || w == "on"@
        || w == "at"@
        || w == "to"@
        || w == "from"@
        || w == "with"@
        || w == "by"@
        || w == "of"@
        || w == "a"@
        || w == "an"@
        || w == "is"@
        || w == "are"@
        || w == "was"@
        || w == "were"@
        || w == "be"@
        || w == "been"@
        || w == "have"@
        || w == "has"@
        || w == "had"@
        || w == "do"@
        || w == "does"@
        || w == "did"@
        || w == "will"@
        || w == "would"@
        || w == "could"@
        || w == "should"@
        || w == "may"@
        || w == "might"@
        || w == "can"@
        || w == "must"@
        || w == "shall"@
        || w == "period:"@
        || w == "look"@
        || w == "used,"@
        || w == "visited,"@
        || w == "activities,"@
        || w == "tasks,"@
        || w == "made."@
        || w == "analyze"@
        || w == "all"@
        || w == "digital"@
        || w == "activity"@
        || w == "applications"@
        || w == "websites"@
        || w == "communication"@
        || w == "work"@
        || w == "important"@
        || w == "actions"@
        || w == "decisions"@
}

/// Executable test for `is_stop_word`.
pub fn is_stop_word_exec(w: &str) -> (r: bool)
    ensures
        r == is_stop_word(w@),
{
    str_eq(w, "f.timestamp")
        || str_eq(w, "datetime")
        || str_eq(w, "now")
        || str_eq(w, "hour")
        || str_eq(w, "day")
        || str_eq(w, "month")
        || str_eq(w, "year")
        || str_eq(w, "the")
        || str_eq(w, "for")
        || str_eq(w, "and")
        || str_eq(w, "or")
        || str_eq(w, "in")
        || str_eq(w, "on")
        || str_eq(w, "at")
        || str_eq(w, "to")
        || str_eq(w, "from")
        || str_eq(w, "with")
        || str_eq(w, "by")
        || str_eq(w, "of")
        || str_eq(w, "a")
        || str_eq(w, "an")
        || str_eq(w, "is")
        || str_eq(w, "are")
        || str_eq(w, "was")
        || str_eq(w, "were")
        || str_eq(w, "be")
        || str_eq(w, "been")
        || str_eq(w, "have")
        || str_eq(w, "has")
        || str_eq(w, "had")
        || str_eq(w, "do")
        || str_eq(w, "does")
        || str_eq(w, "did")
        || str_eq(w, "will")
        || str_eq(w, "would")
        || str_eq(w, "could")
        || str_eq(w, "should")
        || str_eq(w, "may")
        || str_eq(w, "might")
        || str_eq(w, "can")
        || str_eq(w, "must")
        || str_eq(w, "shall")
        || str_eq(w, "period:")
        || str_eq(w, "look")
        || str_eq(w, "used,")
        || str_eq(w, "visited,")
        || str_eq(w, "activities,")
        || str_eq(w, "tasks,")
        || str_eq(w, "made.")
        || str_eq(w, "analyze")
        || str_eq(w, "all")
        || str_eq(w, "digital")
        || str_eq(w, "activity")
        || str_eq(w, "applications")
        || str_eq(w, "websites")
        || str_eq(w, "communication")
        || str_eq(w, "work")
        || str_eq(w, "important")
        || str_eq(w, "actions")
        || str_eq(w, "decisions")
}

/// The fallback terms used when every query word is a stop word, so a
/// query never degenerates into a no-op.
pub open spec fn default_terms() -> Seq<Seq<char>> {
    seq!["app"@, "activity"@, "time"@, "work"@, "communication"@, "development"@, "meeting"@, "coding"@]
}

/// Build the fallback term list.
pub fn default_terms_exec() -> (v: Vec<String>)
    ensures
        views_of(v@) == default_terms(),
{
    let mut v: Vec<String> = Vec::new();
    v.push(String::from_str("app"));
    v.push(String::from_str("activity"));
    v.push(String::from_str("time"));
    v.push(String::from_str("work"));
    v.push(String::from_str("communication"));
    v.push(String::from_str("development"));
    v.push(String::from_str("meeting"));
    v.push(String::from_str("coding"));
    proof {
        assert(views_of(v@) =~= default_terms());
    }
    v
}

/// A retrieval request: the question text, how many chunks to return,
/// and the caller's similarity threshold in hundredths (a score of 1.0
/// is 100). The engine applies its own fixed floor of 0.10; the caller
/// threshold is carried along but not enforced as the cut.
pub struct RAGQuery {
    pub query: String,
    pub top_k: usize,
    pub similarity_threshold: u32,
}

/// A keyword-match score: `hits` of the `out_of` search terms occur in
/// the chunk, so the score as a fraction is `hits / out_of`, in [0, 1].
#[derive(PartialEq, Eq, Structural, Clone, Copy, Debug)]
pub struct Score {
    pub hits: usize,
    pub out_of: usize,
}

/// The answer to a query: generated text plus the ranked context chunks
/// it drew on and their scores, in matching order.
pub struct RAGResponse {
    pub answer: String,
    pub context_chunks: Vec<DataChunk>,
    pub similarity_scores: Vec<Score>,
}

/// Query words that survive stop-word filtering, in order.
pub open spec fn filter_stop_words(ws: Seq<Seq<char>>) -> Seq<Seq<char>>
    decreases ws.len(),
{
    if ws.len() == 0 {
        Seq::empty()
    } else {
        let rest = filter_stop_words(ws.drop_last());
        if is_stop_word(ws.last()) {
            rest
        } else {
            rest.push(ws.last())
        }
    }
}

/// The search terms of a query: its lower-cased words minus stop words,
/// or the fixed fallback list when nothing survives.
pub open spec fn query_terms(q: Seq<char>) -> Seq<Seq<char>> {
    let kept = filter_stop_words(words_of(lower_of(q)));
    if kept.len() == 0 {
        default_terms()
    } else {
        kept
    }
}

/// Compute the search terms of a query.
pub fn query_terms_exec(q: &str) -> (terms: Vec<String>)
    ensures
        views_of(terms@) == query_terms(q@),
        terms@.len() > 0,
{
    let lowered = to_lowercase(q);
    let words = split_words(lowered.as_str());
    let ghost ws = views_of(words@);
    let mut kept: Vec<String> = Vec::new();
    let mut i: usize = 0;
    proof {
        assert(ws.take(0) =~= Seq::<Seq<char>>::empty());
        assert(filter_stop_words(ws.take(0)) =~= Seq::<Seq<char>>::empty());
    }
    while i < words.len()
        invariant
            ws == views_of(words@),
            i <= words.len(),
            views_of(kept@) == filter_stop_words(ws.take(i as int)),
        decreases words.len() - i,
    {
        proof {
            assert(ws.take(i + 1).drop_last() =~= ws.take(i as int));
            assert(ws.take(i + 1).last() == ws[i as int]);
        }
        if !is_stop_word_exec(words[i].as_str()) {
            kept.push(words[i].clone());
            proof {
                assert(views_of(kept@) =~= filter_stop_words(ws.take(i as int)).push(ws[i as int]));
            }
        }
        i = i + 1;
    }
    proof {
        assert(ws.take(words@.len() as int) =~= ws);
    }
    if kept.len() == 0 {
        let d = default_terms_exec();
        proof {
            assert(d@.len() == views_of(d@).len());
            assert(default_terms().len() == 8);
        }
        d
    } else {
        kept
    }
}

/// How many of the terms occur in the (already lower-cased) content.
pub open spec fn term_hits(content: Seq<char>, terms: Seq<Seq<char>>) -> nat
    decreases terms.len(),
{
    if terms.len() == 0 {
        0
    } else {
        term_hits(content, terms.drop_last()) + if contains_seq(content, terms.last()) {
            1nat
        } else {
            0nat
        }
    }
}

/// The keyword score of a chunk against a term list: the number of terms
/// occurring in the chunk's lower-cased content.
pub open spec fn chunk_score(c: DataChunk, terms: Seq<Seq<char>>) -> nat {
    term_hits(lower_of(c.content@), terms)
}

/// A chunk never matches more terms than there are.
pub proof fn lemma_term_hits_le(content: Seq<char>, terms: Seq<Seq<char>>)
    ensures
        term_hits(content, terms) <= terms.len(),
    decreases terms.len(),
{
    if terms.len() > 0 {
        lemma_term_hits_le(content, terms.drop_last());
    }
}

/// Count the terms occurring in the (already lower-cased) content.
pub fn count_hits(content: &str, terms: &Vec<String>) -> (h: usize)
    ensures
        h == term_hits(content@, views_of(terms@)),
        h <= terms@.len(),
{
    let ghost ts = views_of(terms@);
    let mut h: usize = 0;
    let mut i: usize = 0;
    proof {
        assert(ts.take(0) =~= Seq::<Seq<char>>::empty());
    }
    while i < terms.len()
        invariant
            ts == views_of(terms@),
            i <= terms.len(),
            h <= i,
            h == term_hits(content@, ts.take(i as int)),
        decreases terms.len() - i,
    {
        proof {
            assert(ts.take(i + 1).drop_last() =~= ts.take(i as int));
            assert(ts.take(i + 1).last() == ts[i as int]);
        }
        if contains_sub(content, terms[i].as_str()) {
            h = h + 1;
        }
        i = i + 1;
    }
    proof {
        assert(ts.take(terms@.len() as int) =~= ts);
    }
    h
}

/// The fixed retrieval floor: a chunk is eligible when at least one term
/// matches and the score `m / t` is at least 0.10.
pub open spec fn passes_floor(m: nat, t: nat) -> bool {
    m >= 1 && 10 * m >= t
}

/// The chunks whose score is exactly `m`, in encounter order.
pub open spec fn chunks_with_score(chunks: Seq<DataChunk>, terms: Seq<Seq<char>>, m: nat) -> Seq<DataChunk>
    decreases chunks.len(),
{
    if chunks.len() == 0 {
        Seq::empty()
    } else {
        let rest = chunks_with_score(chunks.drop_last(), terms, m);
        if chunk_score(chunks.last(), terms) == m {
            rest.push(chunks.last())
        } else {
            rest
        }
    }
}

/// All eligible chunks with score at most `m`, ranked by score descending
/// with ties in encounter order.
pub open spec fn ranked_from(chunks: Seq<DataChunk>, terms: Seq<Seq<char>>, m: nat) -> Seq<DataChunk>
    decreases m,
{
    if !passes_floor(m, terms.len()) {
        Seq::empty()
    } else if m == 0 {
        Seq::empty()
    } else {
        chunks_with_score(chunks, terms, m) + ranked_from(chunks, terms, (m - 1) as nat)
    }
}

/// The ranked survivor list of a query over a corpus snapshot.
pub open spec fn ranked_chunks(chunks: Seq<DataChunk>, q: Seq<char>) -> Seq<DataChunk> {
    let terms = query_terms(q);
    ranked_from(chunks, terms, terms.len())
}

/// What retrieval returns: the ranked survivors, truncated to `top_k`.
pub open spec fn retrieved(chunks: Seq<DataChunk>, q: Seq<char>, top_k: nat) -> Seq<DataChunk> {
    let r = ranked_chunks(chunks, q);
    if top_k < r.len() {
        r.take(top_k as int)
    } else {
        r
    }
}

/// Score and rank a corpus snapshot against a query, keeping chunks whose
/// keyword score reaches the fixed 0.10 floor, sorted by score descending
/// with ties in corpus order, truncated to `top_k`. The result is a pure
/// function of the snapshot and the query text, so repeated calls on the
/// same inputs return the same ranking.
pub fn retrieve(chunks: &Vec<DataChunk>, query: &RAGQuery) -> (res: (Vec<DataChunk>, Vec<Score>))
    ensures
        res.0@ == retrieved(chunks@, query.query@, query.top_k as nat),
        res.1@.len() == res.0@.len(),
        forall|i: int| 0 <= i < res.1@.len() ==> (#[trigger] res.1@[i]).hits
            == chunk_score(res.0@[i], query_terms(query.query@))
            && res.1@[i].out_of == query_terms(query.query@).len(),
{
    let terms = query_terms_exec(query.query.as_str());
    let ghost ts = query_terms(query.query@);
    let tlen = terms.len();
    let mut hits: Vec<usize> = Vec::new();
    let mut i: usize = 0;
    while i < chunks.len()
        invariant
            ts == views_of(terms@),
            tlen == terms@.len(),
            i <= chunks.len(),
            hits@.len() == i,
            forall|j: int| 0 <= j < i ==> hits@[j] == chunk_score(chunks@[j], ts),
        decreases chunks.len() - i,
    {
        let lowered = to_lowercase(chunks[i].content.as_str());
        let h = count_hits(lowered.as_str(), &terms);
        hits.push(h);
        i = i + 1;
    }
    let mut ranked: Vec<DataChunk> = Vec::new();
    let mut scores: Vec<Score> = Vec::new();
    let mut m: usize = tlen;
    while m >= 1 && (m as u128) * 10 >= (tlen as u128)
        invariant
            ts == views_of(terms@),
            tlen == terms@.len(),
            tlen > 0,
            m <= tlen,
            hits@.len() == chunks@.len(),
            forall|j: int| 0 <= j < chunks@.len() ==> hits@[j] == chunk_score(chunks@[j], ts),
            ranked@ + ranked_from(chunks@, ts, m as nat) == ranked_from(chunks@, ts, tlen as nat),
            scores@.len() == ranked@.len(),
            forall|j: int| 0 <= j < scores@.len() ==> (#[trigger] scores@[j]).hits
                == chunk_score(ranked@[j], ts) && scores@[j].out_of == tlen,
        decreases m,
    {
        let ghost prev = ranked@;
        let mut i2: usize = 0;
        while i2 < chunks.len()
            invariant
                ts == views_of(terms@),
                tlen == terms@.len(),
                i2 <= chunks.len(),
                hits@.len() == chunks@.len(),
                forall|j: int| 0 <= j < chunks@.len() ==> hits@[j] == chunk_score(chunks@[j], ts),
                ranked@ == prev + chunks_with_score(chunks@.take(i2 as int), ts, m as nat),
                scores@.len() == ranked@.len(),
                forall|j: int| 0 <= j < scores@.len() ==> (#[trigger] scores@[j]).hits
                    == chunk_score(ranked@[j], ts) && scores@[j].out_of == tlen,
            decreases chunks.len() - i2,
        {
            proof {
                assert(chunks@.take(i2 + 1).drop_last() =~= chunks@.take(i2 as int));
                assert(chunks@.take(i2 + 1).last() == chunks@[i2 as int]);
            }
            if hits[i2] == m {
                ranked.push(clone_chunk(&chunks[i2]));
                scores.push(Score { hits: m, out_of: tlen });
                proof {
                    assert(ranked@ =~= prev + chunks_with_score(chunks@.take(i2 + 1), ts, m as nat));
                }
            }
            i2 = i2 + 1;
        }
        proof {
            assert(chunks@.take(chunks@.len() as int) =~= chunks@);
            assert(ranked_from(chunks@, ts, m as nat)
                == chunks_with_score(chunks@, ts, m as nat) + ranked_from(chunks@, ts, (m - 1) as nat));
            assert(ranked@ + ranked_from(chunks@, ts, (m - 1) as nat)
                =~= prev + ranked_from(chunks@, ts, m as nat));
        }
        m = m - 1;
    }
    proof {
        assert(ranked_from(chunks@, ts, m as nat) =~= Seq::<DataChunk>::empty());
        assert(ranked@ =~= ranked@ + ranked_from(chunks@, ts, m as nat));
        assert(ranked@ == ranked_chunks(chunks@, query.query@));
    }
    let k = if query.top_k < ranked.len() {
        query.top_k
    } else {
        ranked.len()
    };
    let mut out_chunks: Vec<DataChunk> = Vec::new();
    let mut out_scores: Vec<Score> = Vec::new();
    let mut i3: usize = 0;
    while i3 < k
        invariant
            k <= ranked@.len(),
            i3 <= k,
            scores@.len() == ranked@.len(),
            out_chunks@.len() == i3,
            out_scores@.len() == i3,
            forall|j: int| 0 <= j < i3 ==> out_chunks@[j] == ranked@[j],
            forall|j: int| 0 <= j < i3 ==> out_scores@[j] == scores@[j],
        decreases k - i3,
    {
        out_chunks.push(clone_chunk(&ranked[i3]));
        out_scores.push(scores[i3]);
        i3 = i3 + 1;
    }
    proof {
        if (query.top_k as nat) < ranked@.len() {
            assert(out_chunks@ =~= ranked@.take(query.top_k as int));
        } else {
            assert(out_chunks@ =~= ranked@);
        }
    }
    (out_chunks, out_scores)
}

/// Every chunk in a score bucket scores exactly the bucket's value.
proof fn lemma_bucket_scores(chunks: Seq<DataChunk>, terms: Seq<Seq<char>>, m: nat)
    ensures
        forall|i: int| 0 <= i < chunks_with_score(chunks, terms, m).len()
            ==> chunk_score(#[trigger] chunks_with_score(chunks, terms, m)[i], terms) == m,
    decreases chunks.len(),
{
    if chunks.len() > 0 {
        lemma_bucket_scores(chunks.drop_last(), terms, m);
        let rest = chunks_with_score(chunks.drop_last(), terms, m);
        let b = chunks_with_score(chunks, terms, m);
        if chunk_score(chunks.last(), terms) == m {
            assert(forall|i: int| 0 <= i < rest.len() ==> b[i] == rest[i]);
            assert(b[b.len() - 1] == chunks.last());
        }
    }
}

/// The ranked list is sorted by score descending, every entry passes the
/// floor, and no entry scores above `m`.
proof fn lemma_ranked_from_sorted(chunks: Seq<DataChunk>, terms: Seq<Seq<char>>, m: nat)
    ensures
        forall|i: int| 0 <= i < ranked_from(chunks, terms, m).len()
            ==> passes_floor(chunk_score(#[trigger] ranked_from(chunks, terms, m)[i], terms), terms.len())
                && chunk_score(ranked_from(chunks, terms, m)[i], terms) <= m,
        forall|i: int, j: int| 0 <= i <= j < ranked_from(chunks, terms, m).len()
            ==> chunk_score(#[trigger] ranked_from(chunks, terms, m)[i], terms)
                >= chunk_score(#[trigger] ranked_from(chunks, terms, m)[j], terms),
    decreases m,
{
    if passes_floor(m, terms.len()) && m > 0 {
        let bucket = chunks_with_score(chunks, terms, m);
        let rest = ranked_from(chunks, terms, (m - 1) as nat);
        lemma_bucket_scores(chunks, terms, m);
        lemma_ranked_from_sorted(chunks, terms, (m - 1) as nat);
        let r = ranked_from(chunks, terms, m);
        assert(forall|i: int| 0 <= i < bucket.len() ==> r[i] == bucket[i]);
        assert(forall|i: int| bucket.len() <= i < r.len() ==> r[i] == rest[i - bucket.len()]);
    }
}

/// Retrieval is well-behaved: at most `top_k` results come back, every
/// result's score is positive, at most 1 as a fraction (hits never exceed
/// the term count), at or above the 0.10 floor, and the scores are sorted
/// non-increasing.
pub proof fn lemma_retrieval_ranked(chunks: Seq<DataChunk>, q: Seq<char>, top_k: nat)
    ensures
        retrieved(chunks, q, top_k).len() <= top_k,
        forall|i: int| 0 <= i < retrieved(chunks, q, top_k).len()
            ==> 1 <= chunk_score(#[trigger] retrieved(chunks, q, top_k)[i], query_terms(q))
                && chunk_score(retrieved(chunks, q, top_k)[i], query_terms(q)) <= query_terms(q).len()
                && passes_floor(chunk_score(retrieved(chunks, q, top_k)[i], query_terms(q)), query_terms(q).len()),
        forall|i: int, j: int| 0 <= i <= j < retrieved(chunks, q, top_k).len()
            ==> chunk_score(#[trigger] retrieved(chunks, q, top_k)[i], query_terms(q))
                >= chunk_score(#[trigger] retrieved(chunks, q, top_k)[j], query_terms(q)),
{
    let terms = query_terms(q);
    lemma_ranked_from_sorted(chunks, terms, terms.len());
    let r = ranked_chunks(chunks, q);
    let res = retrieved(chunks, q, top_k);
    assert(forall|i: int| 0 <= i < res.len() ==> res[i] == r[i]);
    assert forall|i: int| 0 <= i < res.len() implies chunk_score(#[trigger] res[i], terms) <= terms.len() by {
        lemma_term_hits_le(lower_of(res[i].content@), terms);
    }
}

} // verus!
