use vstd::prelude::*;

use crate::chunker::{DataChunk, MetaFields, chunk_text, clone_opt, packed_chunks};
use crate::text::{words_of, usize_to_string, u64_to_string, dec_str_of, views_of};
use crate::retrieval::{RAGQuery, Score, retrieve, retrieved, query_terms, chunk_score};
use crate::synthesis::{build_rag_prompt, rag_prompt, context_of};
use crate::analyzer::{KeyCount, Row};

verus! {

/// One screen-capture record of a source file: OCR text plus the optional
/// provenance fields that tag its chunks.
pub struct OcrRecord {
    pub text: Option<String>,
    pub meta: MetaFields,
}

/// One audio record of a source file: a transcription plus optional
/// provenance fields.
pub struct AudioRecord {
    pub transcription: Option<String>,
    pub meta: MetaFields,
}

/// One application-usage record of a source file.
pub struct AppUsageRecord {
    pub app_name: Option<String>,
}

/// One exported data file: its OCR records, audio records, and optional
/// app-usage record. Absent fields are simply skipped, never an error.
pub struct SourceFile {
    pub ocr: Vec<OcrRecord>,
    pub audio: Vec<AudioRecord>,
    pub app_usage: Option<AppUsageRecord>,
}

/// The usage line written for an app-usage record.
pub open spec fn app_usage_text(name: Seq<char>) -> Seq<char> {
    "App: "@ + name + " - Usage data"@
}

/// The texts of a file's OCR records that are present, in order.
pub open spec fn ocr_texts(items: Seq<OcrRecord>) -> Seq<Seq<char>>
    decreases items.len(),
{
    if items.len() == 0 {
        Seq::empty()
    } else {
        let rest = ocr_texts(items.drop_last());
        match items.last().text {
            Some(t) => rest.push(t@),
            None => rest,
        }
    }
}

/// The transcriptions of a file's audio records that are present, in order.
pub open spec fn audio_texts(items: Seq<AudioRecord>) -> Seq<Seq<char>>
    decreases items.len(),
{
    if items.len() == 0 {
        Seq::empty()
    } else {
        let rest = audio_texts(items.drop_last());
        match items.last().transcription {
            Some(t) => rest.push(t@),
            None => rest,
        }
    }
}

/// Every text a single source file contributes, in ingestion order:
/// OCR texts, then transcriptions, then the app-usage line.
pub open spec fn texts_of_file(f: SourceFile) -> Seq<Seq<char>> {
    ocr_texts(f.ocr@) + audio_texts(f.audio@) + match f.app_usage {
        Some(u) => match u.app_name {
            Some(n) => seq![app_usage_text(n@)],
            None => Seq::empty(),
        },
        None => Seq::empty(),
    }
}

/// Every text a list of source files contributes, in ingestion order.
pub open spec fn texts_of_files(files: Seq<SourceFile>) -> Seq<Seq<char>>
    decreases files.len(),
{
    if files.len() == 0 {
        Seq::empty()
    } else {
        texts_of_files(files.drop_last()) + texts_of_file(files.last())
    }
}

/// The chunk contents that chunking a list of texts produces, in order.
pub open spec fn packed_all(texts: Seq<Seq<char>>) -> Seq<Seq<char>>
    decreases texts.len(),
{
    if texts.len() == 0 {
        Seq::empty()
    } else {
        packed_all(texts.drop_last()) + packed_chunks(words_of(texts.last()))
    }
}

/// The contents of a chunk list.
pub open spec fn contents_of(chunks: Seq<DataChunk>) -> Seq<Seq<char>> {
    chunks.map_values(|c: DataChunk| c.content@)
}

/// The append-only in-memory corpus of ingested chunks, together with
/// the operations of the retrieval engine over it.
pub struct RAGSystem {
    pub chunks: Vec<DataChunk>,
}

/// The corpus size summary returned by `get_collection_stats`.
pub struct CollectionStats {
    pub total_points: usize,
}

/// The ranked context and ready-made prompt for one query; the model
/// call that turns the prompt into answer text happens outside.
pub struct RetrievedContext {
    pub context_chunks: Vec<DataChunk>,
    pub similarity_scores: Vec<Score>,
    pub prompt: String,
}

/// Chunk one text and add its chunks to the corpus, returning how many
/// were added.
fn ingest_text(chunks: &mut Vec<DataChunk>, text: &str, source_type: &str, file_index: usize, meta: &MetaFields) -> (count: usize)
    ensures
        contents_of(final(chunks)@) == contents_of(old(chunks)@) + packed_chunks(words_of(text@)),
        count == packed_chunks(words_of(text@)).len(),
        final(chunks)@.len() == old(chunks)@.len() + count,
        final(chunks)@.take(old(chunks)@.len() as int) == old(chunks)@,
        crate::chunker::chunks_of_text(
            final(chunks)@.skip(old(chunks)@.len() as int),
            text@,
            source_type@,
            file_index,
            *meta,
        ),
{
    let mut fresh = chunk_text(text, source_type, file_index, meta);
    let count = fresh.len();
    let ghost before = chunks@;
    let ghost added = fresh@;
    chunks.append(&mut fresh);
    proof {
        assert(contents_of(chunks@) =~= contents_of(before) + contents_of(added));
        assert(contents_of(added) =~= packed_chunks(words_of(text@)));
        assert(chunks@.take(before.len() as int) =~= before);
        assert(chunks@.skip(before.len() as int) =~= added);
    }
    count
}

/// A chunk the ingestion paths may append: tagged with one of the row
/// source types, a file index, and a fresh id.
pub open spec fn ingested_chunk_ok(c: DataChunk) -> bool {
    &&& (c.metadata.source_type@ == "ocr"@ || c.metadata.source_type@ == "audio"@
        || c.metadata.source_type@ == "app_usage"@)
    &&& c.metadata.file_index is Some
    &&& c.id@.len() == 36
}

/// Pre-existing chunks survive an append unchanged, at their indexes.
proof fn lemma_take_shrink(a: Seq<DataChunk>, b: Seq<DataChunk>, n: int)
    requires
        0 <= n <= a.len(),
        a.len() <= b.len(),
        b.take(a.len() as int) == a,
    ensures
        b.take(n) == a.take(n),
{
    assert forall|i: int| 0 <= i < n implies b.take(n)[i] == a.take(n)[i] by {
        assert(b.take(a.len() as int)[i] == a[i]);
    }
    assert(b.take(n) =~= a.take(n));
}

/// One chunked text extends the corpus without touching what was there,
/// and every appended chunk carries a row source type, a file index,
/// and a fresh id.
proof fn lemma_ingest_extend(
    base: Seq<DataChunk>,
    pre: Seq<DataChunk>,
    post: Seq<DataChunk>,
    text: Seq<char>,
    st: Seq<char>,
    fidx: usize,
    meta: MetaFields,
)
    requires
        base.len() <= pre.len(),
        pre.take(base.len() as int) == base,
        forall|ci: int| base.len() <= ci < pre.len() ==> ingested_chunk_ok(#[trigger] pre[ci]),
        post.len() >= pre.len(),
        post.take(pre.len() as int) == pre,
        crate::chunker::chunks_of_text(post.skip(pre.len() as int), text, st, fidx, meta),
        st == "ocr"@ || st == "audio"@ || st == "app_usage"@,
    ensures
        post.take(base.len() as int) == base,
        forall|ci: int| base.len() <= ci < post.len() ==> ingested_chunk_ok(#[trigger] post[ci]),
{
    lemma_take_shrink(pre, post, base.len() as int);
    assert(pre.take(base.len() as int) == base);
    assert forall|ci: int| base.len() <= ci < post.len() implies ingested_chunk_ok(
        #[trigger] post[ci],
    ) by {
        if ci < pre.len() {
            assert(post[ci] == pre[ci]);
        } else {
            let j = ci - pre.len();
            assert(post.skip(pre.len() as int)[j] == post[ci]);
        }
    }
}

impl RAGSystem {
    /// A corpus starts empty.
    pub fn new() -> (s: Self)
        ensures
            s.chunks@.len() == 0,
    {
        RAGSystem { chunks: Vec::new() }
    }

    /// Ingest a batch of source files: chunk every OCR text, every
    /// transcription, and every app-usage line, append the chunks to the
    /// corpus in order, and return how many chunks were added. Records
    /// with a missing text field are skipped, never an error.
    pub fn ingest_data(&mut self, data_files: &Vec<SourceFile>) -> (count: usize)
        ensures
            contents_of(final(self).chunks@)
                == contents_of(old(self).chunks@) + packed_all(texts_of_files(data_files@)),
            count == packed_all(texts_of_files(data_files@)).len(),
            final(self).chunks@.len() == old(self).chunks@.len() + count,
            final(self).chunks@.take(old(self).chunks@.len() as int) == old(self).chunks@,
            forall|ci: int| old(self).chunks@.len() <= ci < final(self).chunks@.len()
                ==> ingested_chunk_ok(#[trigger] final(self).chunks@[ci]),
    {
        let ghost base = self.chunks@;
        let mut total: usize = 0;
        let mut fi: usize = 0;
        proof {
            assert(texts_of_files(data_files@.take(0)) =~= Seq::<Seq<char>>::empty());
            assert(contents_of(self.chunks@) =~= contents_of(base) + packed_all(Seq::<Seq<char>>::empty()));
            assert(self.chunks@.take(base.len() as int) =~= base);
        }
        while fi < data_files.len()
            invariant
                fi <= data_files.len(),
                contents_of(self.chunks@) == contents_of(base)
                    + packed_all(texts_of_files(data_files@.take(fi as int))),
                total == packed_all(texts_of_files(data_files@.take(fi as int))).len(),
                self.chunks@.len() == base.len() + total,
                self.chunks@.take(base.len() as int) == base,
                forall|ci: int| base.len() <= ci < self.chunks@.len()
                    ==> ingested_chunk_ok(#[trigger] self.chunks@[ci]),
            decreases data_files.len() - fi,
        {
            let f = &data_files[fi];
            let ghost done = texts_of_files(data_files@.take(fi as int));
            let mut i: usize = 0;
            proof {
                assert(ocr_texts(f.ocr@.take(0)) =~= Seq::<Seq<char>>::empty());
                lemma_packed_all_app(done, Seq::<Seq<char>>::empty());
                assert(done + Seq::<Seq<char>>::empty() =~= done);
            }
            while i < f.ocr.len()
                invariant
                    fi < data_files@.len(),
                    f == &data_files@[fi as int],
                    i <= f.ocr.len(),
                    contents_of(self.chunks@) == contents_of(base)
                        + packed_all(done + ocr_texts(f.ocr@.take(i as int))),
                    total == packed_all(done + ocr_texts(f.ocr@.take(i as int))).len(),
                    self.chunks@.len() == base.len() + total,
                    self.chunks@.take(base.len() as int) == base,
                    forall|ci: int| base.len() <= ci < self.chunks@.len()
                        ==> ingested_chunk_ok(#[trigger] self.chunks@[ci]),
                self.chunks@.take(base.len() as int) == base,
                forall|ci: int| base.len() <= ci < self.chunks@.len()
                    ==> ingested_chunk_ok(#[trigger] self.chunks@[ci]),
                decreases f.ocr.len() - i,
            {
                proof {
                    assert(f.ocr@.take(i + 1).drop_last() =~= f.ocr@.take(i as int));
                    assert(f.ocr@.take(i + 1).last() == f.ocr@[i as int]);
                }
                match &f.ocr[i].text {
                    Some(t) => {
                        let ghost pre_chunks = self.chunks@;
                        let added = ingest_text(&mut self.chunks, t.as_str(), "ocr", fi, &f.ocr[i].meta);
                        let cur_len = self.chunks.len();
                        proof {
                            assert(cur_len == base.len() + total + added);
                            lemma_ingest_extend(base, pre_chunks, self.chunks@, t@, "ocr"@, fi, f.ocr@[i as int].meta);
                        }
                        total = total + added;
                        proof {
                            lemma_packed_all_snoc(done + ocr_texts(f.ocr@.take(i as int)), t@);
                            assert(done + ocr_texts(f.ocr@.take(i + 1))
                                =~= (done + ocr_texts(f.ocr@.take(i as int))).push(t@));
                        }
                    },
                    None => {
                        proof {
                            assert(ocr_texts(f.ocr@.take(i + 1)) =~= ocr_texts(f.ocr@.take(i as int)));
                        }
                    },
                }
                i = i + 1;
            }
            proof {
                assert(f.ocr@.take(f.ocr@.len() as int) =~= f.ocr@);
                assert(audio_texts(f.audio@.take(0)) =~= Seq::<Seq<char>>::empty());
            }
            let ghost done_ocr = done + ocr_texts(f.ocr@);
            let mut j: usize = 0;
            proof {
                assert(done + ocr_texts(f.ocr@) + audio_texts(f.audio@.take(0)) =~= done_ocr);
            }
            while j < f.audio.len()
                invariant
                    fi < data_files@.len(),
                    f == &data_files@[fi as int],
                    done_ocr == done + ocr_texts(f.ocr@),
                    j <= f.audio.len(),
                    contents_of(self.chunks@) == contents_of(base)
                        + packed_all(done_ocr + audio_texts(f.audio@.take(j as int))),
                    total == packed_all(done_ocr + audio_texts(f.audio@.take(j as int))).len(),
                    self.chunks@.len() == base.len() + total,
                    self.chunks@.take(base.len() as int) == base,
                    forall|ci: int| base.len() <= ci < self.chunks@.len()
                        ==> ingested_chunk_ok(#[trigger] self.chunks@[ci]),
                self.chunks@.take(base.len() as int) == base,
                forall|ci: int| base.len() <= ci < self.chunks@.len()
                    ==> ingested_chunk_ok(#[trigger] self.chunks@[ci]),
                decreases f.audio.len() - j,
            {
                proof {
                    assert(f.audio@.take(j + 1).drop_last() =~= f.audio@.take(j as int));
                    assert(f.audio@.take(j + 1).last() == f.audio@[j as int]);
                }
                match &f.audio[j].transcription {
                    Some(t) => {
                        let ghost pre_chunks = self.chunks@;
                        let added = ingest_text(&mut self.chunks, t.as_str(), "audio", fi, &f.audio[j].meta);
                        let cur_len = self.chunks.len();
                        proof {
                            assert(cur_len == base.len() + total + added);
                            lemma_ingest_extend(base, pre_chunks, self.chunks@, t@, "audio"@, fi, f.audio@[j as int].meta);
                        }
                        total = total + added;
                        proof {
                            lemma_packed_all_snoc(done_ocr + audio_texts(f.audio@.take(j as int)), t@);
                            assert(done_ocr + audio_texts(f.audio@.take(j + 1))
                                =~= (done_ocr + audio_texts(f.audio@.take(j as int))).push(t@));
                        }
                    },
                    None => {
                        proof {
                            assert(audio_texts(f.audio@.take(j + 1)) =~= audio_texts(f.audio@.take(j as int)));
                        }
                    },
                }
                j = j + 1;
            }
            proof {
                assert(f.audio@.take(f.audio@.len() as int) =~= f.audio@);
            }
            let ghost done_audio = done_ocr + audio_texts(f.audio@);
            match &f.app_usage {
                Some(u) => {
                    match &u.app_name {
                        Some(n) => {
                            let mut usage_text = String::from_str("App: ");
                            usage_text.append(n.as_str());
                            usage_text.append(" - Usage data");
                            let meta = MetaFields {
                                app_name: Some(n.clone()),
                                timestamp: None,
                                window_name: None,
                                speaker_id: None,
                            };
                            let ghost pre_chunks = self.chunks@;
                            let added = ingest_text(&mut self.chunks, usage_text.as_str(), "app_usage", fi, &meta);
                            let cur_len = self.chunks.len();
                            proof {
                                assert(cur_len == base.len() + total + added);
                                lemma_ingest_extend(base, pre_chunks, self.chunks@, usage_text@, "app_usage"@, fi, meta);
                            }
                            total = total + added;
                            proof {
                                lemma_packed_all_snoc(done_audio, app_usage_text(n@));
                                assert(done_audio + seq![app_usage_text(n@)] =~= done_audio.push(app_usage_text(n@)));
                                assert(usage_text@ == app_usage_text(n@));
                                assert(done_audio.push(app_usage_text(n@))
                                    =~= done + texts_of_file(data_files@[fi as int]));
                            }
                        },
                        None => {
                            proof {
                                assert(done_audio =~= done + texts_of_file(data_files@[fi as int]));
                            }
                        },
                    }
                },
                None => {
                    proof {
                        assert(done_audio =~= done + texts_of_file(data_files@[fi as int]));
                    }
                },
            }
            proof {
                assert(texts_of_files(data_files@.take(fi + 1)) =~= done + texts_of_file(data_files@[fi as int])) by {
                    assert(data_files@.take(fi + 1).drop_last() =~= data_files@.take(fi as int));
                    assert(data_files@.take(fi + 1).last() == data_files@[fi as int]);
                }
            }
            fi = fi + 1;
        }
        proof {
            assert(data_files@.take(data_files@.len() as int) =~= data_files@);
        }
        total
    }

    /// Empty the corpus. Chunks are never removed one by one; this bulk
    /// clear is the only way the corpus shrinks.
    pub fn clear_collection(&mut self)
        ensures
            final(self).chunks@.len() == 0,
    {
        self.chunks.clear();
    }

    /// The corpus size: how many chunks are currently held.
    pub fn get_collection_stats(&self) -> (stats: CollectionStats)
        ensures
            stats.total_points == self.chunks@.len(),
    {
        CollectionStats { total_points: self.chunks.len() }
    }

    /// Answer the retrieval half of a query: rank the corpus against the
    /// query, and build the prompt that a model provider will complete.
    pub fn query_rag(&self, query: &RAGQuery) -> (r: RetrievedContext)
        ensures
            r.context_chunks@ == retrieved(self.chunks@, query.query@, query.top_k as nat),
            r.similarity_scores@.len() == r.context_chunks@.len(),
            forall|i: int| 0 <= i < r.similarity_scores@.len()
                ==> (#[trigger] r.similarity_scores@[i]).hits
                    == chunk_score(r.context_chunks@[i], query_terms(query.query@))
                    && r.similarity_scores@[i].out_of == query_terms(query.query@).len(),
            r.prompt@ == rag_prompt(context_of(r.context_chunks@), query.query@),
    {
        let (context_chunks, similarity_scores) = retrieve(&self.chunks, query);
        let prompt = build_rag_prompt(query.query.as_str(), &context_chunks);
        RetrievedContext { context_chunks, similarity_scores, prompt }
    }
}

/// Chunking texts in order chunks each text in order.
proof fn lemma_packed_all_app(a: Seq<Seq<char>>, b: Seq<Seq<char>>)
    ensures
        packed_all(a + b) == packed_all(a) + packed_all(b),
    decreases b.len(),
{
    if b.len() == 0 {
        assert(a + b =~= a);
        assert(packed_all(a) + packed_all(b) =~= packed_all(a));
    } else {
        assert((a + b).drop_last() =~= a + b.drop_last());
        assert((a + b).last() == b.last());
        lemma_packed_all_app(a, b.drop_last());
        assert(packed_all(a) + packed_all(b.drop_last()) + packed_chunks(words_of(b.last()))
            =~= packed_all(a) + (packed_all(b.drop_last()) + packed_chunks(words_of(b.last()))));
    }
}

/// Chunking one more text appends that text's chunks.
proof fn lemma_packed_all_snoc(texts: Seq<Seq<char>>, t: Seq<char>)
    ensures
        packed_all(texts.push(t)) == packed_all(texts) + packed_chunks(words_of(t)),
{
    assert(texts.push(t).drop_last() =~= texts);
    assert(texts.push(t).last() == t);
}

/// How many of the texts contain at least one word.
pub open spec fn texts_with_words(texts: Seq<Seq<char>>) -> nat
    decreases texts.len(),
{
    if texts.len() == 0 {
        0
    } else {
        texts_with_words(texts.drop_last()) + if words_of(texts.last()).len() > 0 {
            1nat
        } else {
            0nat
        }
    }
}

/// Ingestion produces at least one chunk per text that has any words:
/// a long text may split into several chunks, never into none.
pub proof fn lemma_ingest_lower_bound(texts: Seq<Seq<char>>)
    ensures
        packed_all(texts).len() >= texts_with_words(texts),
    decreases texts.len(),
{
    if texts.len() > 0 {
        lemma_ingest_lower_bound(texts.drop_last());
        crate::chunker::lemma_chunking_faithful(texts.last());
    }
}

/// The speaker a row's audio is attributed to, or "Unknown".
pub open spec fn row_device(r: Row) -> Seq<char> {
    match r.device {
        Some(s) => s@,
        None => "Unknown"@,
    }
}

/// The timestamp a row's activity line shows, or "Unknown".
pub open spec fn row_ts_display(r: Row) -> Seq<char> {
    match r.timestamp {
        Some(s) => s@,
        None => "Unknown"@,
    }
}

/// The enhanced OCR line of a row.
pub open spec fn ocr_line(r: Row) -> Seq<char> {
    "OCR from "@ + crate::analyzer::row_app(r) + ": "@ + crate::analyzer::row_ocr(r)
}

/// The enhanced audio line of a row.
pub open spec fn audio_line(r: Row) -> Seq<char> {
    "Audio from "@ + crate::analyzer::row_app(r) + " ("@ + row_device(r) + "): "@
        + crate::analyzer::row_trans(r)
}

/// The URL suffix of a row's activity line: present only when the row
/// carries a browser URL.
pub open spec fn url_info(r: Row) -> Seq<char> {
    if crate::analyzer::row_url(r).len() > 0 {
        " - URL: "@ + crate::analyzer::row_url(r)
    } else {
        Seq::empty()
    }
}

/// The app-activity line of a row.
pub open spec fn activity_line(r: Row) -> Seq<char> {
    "App Activity: "@ + crate::analyzer::row_app(r) + " - Window: "@
        + crate::analyzer::row_window(r) + " - Timestamp: "@ + row_ts_display(r) + url_info(r)
}

/// The texts one row contributes, in ingestion order: its OCR line when
/// it has OCR text, its audio line when it has a transcription, and its
/// activity line when its app name is recorded and non-empty.
pub open spec fn row_texts(r: Row) -> Seq<Seq<char>> {
    (if crate::analyzer::row_ocr(r).len() > 0 {
        seq![ocr_line(r)]
    } else {
        Seq::empty()
    }) + (if crate::analyzer::row_trans(r).len() > 0 {
        seq![audio_line(r)]
    } else {
        Seq::empty()
    }) + (match r.app_name {
        Some(n) => if n@.len() > 0 {
            seq![activity_line(r)]
        } else {
            Seq::empty()
        },
        None => Seq::empty(),
    })
}

/// The texts a row stream contributes, in order.
pub open spec fn rows_texts(rows: Seq<Row>) -> Seq<Seq<char>>
    decreases rows.len(),
{
    if rows.len() == 0 {
        Seq::empty()
    } else {
        rows_texts(rows.drop_last()) + row_texts(rows.last())
    }
}

/// A user-visible failure of the engine, each with a distinct message:
/// the corpus was queried before initialization, the upstream record
/// source failed, or every model provider was exhausted.
#[derive(Debug)]
pub enum RagError {
    NotInitialized,
    Source(String),
    Provider(String),
}

impl RagError {
    /// The message shown for this failure.
    pub fn message(&self) -> (r: String)
        ensures
            *self is NotInitialized ==> r@ == "RAG system not initialized"@,
            self matches RagError::Source(e) ==> r@ == e@,
            self matches RagError::Provider(e) ==> r@ == e@,
    {
        match self {
            RagError::NotInitialized => String::from_str("RAG system not initialized"),
            RagError::Source(e) => e.clone(),
            RagError::Provider(e) => e.clone(),
        }
    }
}

/// The engine's control surface: one explicitly constructed service
/// holding an optional corpus. It starts absent; querying, clearing,
/// or reading stats before initialization is an explicit error, while
/// ingestion helpers and `initialize_rag` create the corpus on demand.
pub struct RagService {
    pub system: Option<RAGSystem>,
}

/// The message reported after ingesting `n` chunks.
pub open spec fn ingest_message(n: nat) -> Seq<char> {
    "Successfully ingested "@ + dec_str_of(n) + " chunks"@
}

impl RagService {
    /// A service starts with no corpus.
    pub fn new() -> (s: Self)
        ensures
            s.system is None,
    {
        RagService { system: None }
    }

    /// Create the corpus if it does not exist yet; an existing corpus is
    /// kept as it is.
    pub fn initialize_rag(&mut self) -> (r: String)
        ensures
            final(self).system is Some,
            old(self).system matches Some(s) ==> final(self).system == Some(s),
            old(self).system is None ==> (final(self).system matches Some(s) && s.chunks@.len() == 0),
            r@ == "RAG system initialized successfully"@,
    {
        if self.system.is_none() {
            self.system = Some(RAGSystem::new());
        }
        String::from_str("RAG system initialized successfully")
    }

    /// Ingest source files into the corpus, creating it first if absent,
    /// and report how many chunks were added.
    pub fn ingest_data_rag(&mut self, data_files: &Vec<SourceFile>) -> (r: String)
        ensures
            final(self).system matches Some(s) && {
                let before = match old(self).system {
                    Some(s0) => contents_of(s0.chunks@),
                    None => Seq::empty(),
                };
                &&& contents_of(s.chunks@) == before + packed_all(texts_of_files(data_files@))
                &&& r@ == ingest_message(packed_all(texts_of_files(data_files@)).len())
                &&& (old(self).system matches Some(s0)
                    ==> s.chunks@.take(s0.chunks@.len() as int) == s0.chunks@)
                &&& forall|ci: int| (match old(self).system {
                    Some(s0) => s0.chunks@.len() as int,
                    None => 0int,
                }) <= ci < s.chunks@.len() ==> ingested_chunk_ok(#[trigger] s.chunks@[ci])
            },
    {
        if self.system.is_none() {
            self.system = Some(RAGSystem::new());
        }
        let ghost pre = match &self.system {
            Some(s) => s.chunks@,
            None => Seq::empty(),
        };
        let count = match &mut self.system {
            Some(s) => s.ingest_data(data_files),
            None => {
                proof {
                    assert(false);
                }
                0
            },
        };
        let mut r = String::from_str("Successfully ingested ");
        r.append(usize_to_string(count).as_str());
        r.append(" chunks");
        proof {
            if old(self).system is None {
                assert(pre.len() == 0);
                assert(contents_of(pre) =~= Seq::<Seq<char>>::empty());
            }
        }
        r
    }

    /// Empty the corpus. Clearing before any corpus exists is the
    /// explicit not-initialized error, recoverable by initializing.
    pub fn clear_rag_data(&mut self) -> (r: Result<String, RagError>)
        ensures
            old(self).system is Some ==> (final(self).system matches Some(s) && s.chunks@.len() == 0
                && (r matches Ok(m) && m@ == "RAG data cleared successfully"@)),
            old(self).system is None ==> (final(self).system is None
                && (r matches Err(e) && e is NotInitialized)),
    {
        match &mut self.system {
            Some(s) => {
                s.clear_collection();
                Ok(String::from_str("RAG data cleared successfully"))
            },
            None => Err(RagError::NotInitialized),
        }
    }

    /// The corpus size, or the not-initialized error when no corpus
    /// exists yet.
    pub fn get_rag_stats(&self) -> (r: Result<CollectionStats, RagError>)
        ensures
            self.system matches Some(s) ==> (r matches Ok(st) && st.total_points == s.chunks@.len()),
            self.system is None ==> (r matches Err(e) && e is NotInitialized),
    {
        match &self.system {
            Some(s) => Ok(s.get_collection_stats()),
            None => Err(RagError::NotInitialized),
        }
    }

    /// Answer the retrieval half of a query against the current corpus,
    /// with the caller's defaults filled in (five chunks, a 0.10
    /// threshold), or the not-initialized error when no corpus exists.
    pub fn query_rag_system(&self, query: &str, top_k: Option<usize>, similarity_threshold: Option<u32>) -> (r: Result<RetrievedContext, RagError>)
        ensures
            self.system is None ==> (r matches Err(e) && e is NotInitialized),
            self.system matches Some(s) ==> (r matches Ok(ctx) && {
                let k = match top_k {
                    Some(k) => k,
                    None => 5,
                };
                &&& ctx.context_chunks@ == retrieved(s.chunks@, query@, k as nat)
                &&& ctx.similarity_scores@.len() == ctx.context_chunks@.len()
                &&& ctx.prompt@ == rag_prompt(context_of(ctx.context_chunks@), query@)
            }),
    {
        let system = match &self.system {
            Some(s) => s,
            None => {
                return Err(RagError::NotInitialized);
            },
        };
        let top_k_value = match top_k {
            Some(k) => k,
            None => 5,
        };
        let similarity_threshold_value = match similarity_threshold {
            Some(t) => t,
            None => 10,
        };
        let rag_query = RAGQuery {
            query: String::from_str(query),
            top_k: top_k_value,
            similarity_threshold: similarity_threshold_value,
        };
        Ok(system.query_rag(&rag_query))
    }
}


impl RAGSystem {
    /// Ingest a stream of capture-store rows: each row contributes an
    /// enhanced OCR line, audio line, and app-activity line where the
    /// underlying fields are present, chunked and appended in order.
    #[verifier::rlimit(100)]
    #[verifier::spinoff_prover]
    pub fn ingest_rows(&mut self, rows: &Vec<Row>) -> (count: usize)
        ensures
            contents_of(final(self).chunks@)
                == contents_of(old(self).chunks@) + packed_all(rows_texts(rows@)),
            count == packed_all(rows_texts(rows@)).len(),
            final(self).chunks@.len() == old(self).chunks@.len() + count,
            final(self).chunks@.take(old(self).chunks@.len() as int) == old(self).chunks@,
            forall|ci: int| old(self).chunks@.len() <= ci < final(self).chunks@.len()
                ==> ingested_chunk_ok(#[trigger] final(self).chunks@[ci]),
    {
        let ghost base = self.chunks@;
        let mut total: usize = 0;
        let mut i: usize = 0;
        proof {
            assert(rows_texts(rows@.take(0)) =~= Seq::<Seq<char>>::empty());
            assert(contents_of(self.chunks@) =~= contents_of(base) + packed_all(Seq::<Seq<char>>::empty()));
            assert(self.chunks@.take(base.len() as int) =~= base);
        }
        while i < rows.len()
            invariant
                i <= rows.len(),
                contents_of(self.chunks@) == contents_of(base)
                    + packed_all(rows_texts(rows@.take(i as int))),
                total == packed_all(rows_texts(rows@.take(i as int))).len(),
                self.chunks@.len() == base.len() + total,
                self.chunks@.take(base.len() as int) == base,
                forall|ci: int| base.len() <= ci < self.chunks@.len()
                    ==> ingested_chunk_ok(#[trigger] self.chunks@[ci]),
            decreases rows.len() - i,
        {
            let r = &rows[i];
            let ghost prefix = rows_texts(rows@.take(i as int));
            let ghost mut cur = prefix;
            // OCR line.
            let ocr = match &r.ocr_text {
                Some(t) => t.as_str(),
                None => "",
            };
            if ocr.unicode_len() > 0 {
                let mut line = String::from_str("OCR from ");
                line.append(crate::analyzer::row_app_exec(r));
                line.append(": ");
                line.append(ocr);
                let meta = MetaFields {
                    app_name: Some(String::from_str(crate::analyzer::row_app_exec(r))),
                    timestamp: clone_opt(&r.timestamp),
                    window_name: clone_opt(&r.window_name),
                    speaker_id: None,
                };
                let ghost pre_chunks = self.chunks@;
                let added = ingest_text(&mut self.chunks, line.as_str(), "ocr", i, &meta);
                let cur_len = self.chunks.len();
                proof {
                    assert(cur_len == base.len() + total + added);
                    lemma_ingest_extend(base, pre_chunks, self.chunks@, line@, "ocr"@, i, meta);
                    assert(line@ == ocr_line(rows@[i as int]));
                    lemma_packed_all_snoc(cur, ocr_line(rows@[i as int]));
                    cur = cur.push(ocr_line(rows@[i as int]));
                }
                total = total + added;
            }
            // Audio line.
            let trans = match &r.transcription {
                Some(t) => t.as_str(),
                None => "",
            };
            if trans.unicode_len() > 0 {
                let mut line = String::from_str("Audio from ");
                line.append(crate::analyzer::row_app_exec(r));
                line.append(" (");
                match &r.device {
                    Some(d) => line.append(d.as_str()),
                    None => line.append("Unknown"),
                }
                line.append("): ");
                line.append(trans);
                let meta = MetaFields {
                    app_name: Some(String::from_str(crate::analyzer::row_app_exec(r))),
                    timestamp: clone_opt(&r.timestamp),
                    window_name: None,
                    speaker_id: clone_opt(&r.device),
                };
                let ghost pre_chunks = self.chunks@;
                let added = ingest_text(&mut self.chunks, line.as_str(), "audio", i, &meta);
                let cur_len = self.chunks.len();
                proof {
                    assert(cur_len == base.len() + total + added);
                    lemma_ingest_extend(base, pre_chunks, self.chunks@, line@, "audio"@, i, meta);
                    assert(line@ == audio_line(rows@[i as int]));
                    lemma_packed_all_snoc(cur, audio_line(rows@[i as int]));
                    cur = cur.push(audio_line(rows@[i as int]));
                }
                total = total + added;
            }
            // App-activity line.
            let has_app = match &r.app_name {
                Some(n) => n.as_str().unicode_len() > 0,
                None => false,
            };
            if has_app {
                let mut line = String::from_str("App Activity: ");
                line.append(crate::analyzer::row_app_exec(r));
                line.append(" - Window: ");
                match &r.window_name {
                    Some(w) => line.append(w.as_str()),
                    None => line.append("Unknown"),
                }
                line.append(" - Timestamp: ");
                match &r.timestamp {
                    Some(t) => line.append(t.as_str()),
                    None => line.append("Unknown"),
                }
                let url = match &r.browser_url {
                    Some(u) => u.as_str(),
                    None => "",
                };
                if url.unicode_len() > 0 {
                    line.append(" - URL: ");
                    line.append(url);
                }
                let meta = MetaFields {
                    app_name: clone_opt(&r.app_name),
                    timestamp: clone_opt(&r.timestamp),
                    window_name: clone_opt(&r.window_name),
                    speaker_id: None,
                };
                let ghost pre_chunks = self.chunks@;
                let added = ingest_text(&mut self.chunks, line.as_str(), "app_usage", i, &meta);
                let cur_len = self.chunks.len();
                proof {
                    assert(cur_len == base.len() + total + added);
                    lemma_ingest_extend(base, pre_chunks, self.chunks@, line@, "app_usage"@, i, meta);
                    assert(line@ == activity_line(rows@[i as int]));
                    lemma_packed_all_snoc(cur, activity_line(rows@[i as int]));
                    cur = cur.push(activity_line(rows@[i as int]));
                }
                total = total + added;
            }
            proof {
                assert(cur =~= prefix + row_texts(rows@[i as int]));
                assert(rows_texts(rows@.take(i + 1)) =~= prefix + row_texts(rows@[i as int])) by {
                    assert(rows@.take(i + 1).drop_last() =~= rows@.take(i as int));
                    assert(rows@.take(i + 1).last() == rows@[i as int]);
                }
            }
            i = i + 1;
        }
        proof {
            assert(rows@.take(rows@.len() as int) =~= rows@);
        }
        total
    }
}

impl RagService {
    /// Ingest a stream of capture-store rows into the corpus, creating it
    /// first if absent, and report how many chunks were added.
    pub fn process_sql_data_for_rag(&mut self, rows: &Vec<Row>) -> (r: String)
        ensures
            final(self).system matches Some(s) && {
                let before = match old(self).system {
                    Some(s0) => contents_of(s0.chunks@),
                    None => Seq::empty(),
                };
                &&& contents_of(s.chunks@) == before + packed_all(rows_texts(rows@))
                &&& r@ == "Successfully ingested "@ + dec_str_of(packed_all(rows_texts(rows@)).len())
                    + " data chunks into RAG system"@
                &&& (old(self).system matches Some(s0)
                    ==> s.chunks@.take(s0.chunks@.len() as int) == s0.chunks@)
                &&& forall|ci: int| (match old(self).system {
                    Some(s0) => s0.chunks@.len() as int,
                    None => 0int,
                }) <= ci < s.chunks@.len() ==> ingested_chunk_ok(#[trigger] s.chunks@[ci])
            },
    {
        if self.system.is_none() {
            self.system = Some(RAGSystem::new());
        }
        let ghost pre = match &self.system {
            Some(s) => s.chunks@,
            None => Seq::empty(),
        };
        let count = match &mut self.system {
            Some(s) => s.ingest_rows(rows),
            None => {
                proof {
                    assert(false);
                }
                0
            },
        };
        let mut r = String::from_str("Successfully ingested ");
        r.append(usize_to_string(count).as_str());
        r.append(" data chunks into RAG system");
        proof {
            if old(self).system is None {
                assert(pre.len() == 0);
                assert(contents_of(pre) =~= Seq::<Seq<char>>::empty());
            }
        }
        r
    }
}


/// The summary list entry of one app: its name with its frame and
/// window counts.
pub open spec fn app_summary_line(rows: Seq<Row>, k: Seq<char>) -> Seq<char> {
    k + " ("@ + dec_str_of(crate::analyzer::app_count(rows, k)) + " frames, "@
        + dec_str_of(crate::analyzer::windows_count(rows, k)) + " windows)"@
}

/// The summary list entry of one website domain.
pub open spec fn site_summary_line(rows: Seq<Row>, d: Seq<char>) -> Seq<char> {
    d + " ("@ + dec_str_of(crate::analyzer::domain_count(rows, d)) + " visits)"@
}

/// The summary list entry of one app with audio.
pub open spec fn audio_summary_line(rows: Seq<Row>, a: Seq<char>) -> Seq<char> {
    a + " ("@ + dec_str_of(crate::analyzer::audio_app_count(rows, a)) + " audio clips)"@
}

/// One counted entry per app, in first-seen order, labelled with its
/// rendered summary line.
pub open spec fn app_summary_entries_ok(entries: Seq<KeyCount>, rows: Seq<Row>) -> bool {
    &&& entries.len() == crate::analyzer::app_keys(rows).len()
    &&& forall|i: int| 0 <= i < entries.len() ==> (#[trigger] entries[i]).key@
        == app_summary_line(rows, crate::analyzer::app_keys(rows)[i])
        && entries[i].count == crate::analyzer::app_count(rows, crate::analyzer::app_keys(rows)[i])
}

/// One counted entry per website domain, in first-seen order.
pub open spec fn site_summary_entries_ok(entries: Seq<KeyCount>, rows: Seq<Row>) -> bool {
    &&& entries.len() == crate::analyzer::domain_keys(rows).len()
    &&& forall|i: int| 0 <= i < entries.len() ==> (#[trigger] entries[i]).key@
        == site_summary_line(rows, crate::analyzer::domain_keys(rows)[i])
        && entries[i].count == crate::analyzer::domain_count(rows, crate::analyzer::domain_keys(rows)[i])
}

/// One counted entry per app with audio, in first-seen order.
pub open spec fn audio_summary_entries_ok(entries: Seq<KeyCount>, rows: Seq<Row>) -> bool {
    &&& entries.len() == crate::analyzer::audio_app_keys(rows).len()
    &&& forall|i: int| 0 <= i < entries.len() ==> (#[trigger] entries[i]).key@
        == audio_summary_line(rows, crate::analyzer::audio_app_keys(rows)[i])
        && entries[i].count == crate::analyzer::audio_app_count(rows, crate::analyzer::audio_app_keys(rows)[i])
}

/// A ranking of the entries: the same entries, ordered by count,
/// largest first.
pub open spec fn ranked_desc(ranked: Seq<KeyCount>, entries: Seq<KeyCount>) -> bool {
    &&& ranked.len() == entries.len()
    &&& ranked.to_multiset() == entries.to_multiset()
    &&& forall|i: int, j: int| 0 <= i <= j < ranked.len()
        ==> (#[trigger] ranked[i]).count >= (#[trigger] ranked[j]).count
}

/// The first `cap` entries of a ranking, or all of them.
pub open spec fn capped(ranked: Seq<KeyCount>, cap: int) -> Seq<KeyCount> {
    if cap < ranked.len() {
        ranked.take(cap)
    } else {
        ranked
    }
}

/// The labels of the entries, joined by commas.
pub open spec fn joined_labels(ranked: Seq<KeyCount>) -> Seq<char>
    decreases ranked.len(),
{
    if ranked.len() == 0 {
        Seq::empty()
    } else if ranked.len() == 1 {
        ranked[0].key@
    } else {
        joined_labels(ranked.drop_last()) + ", "@ + ranked.last().key@
    }
}

/// The bundled rankings behind one summary: per-app, per-domain, and
/// per-audio-app entries, each correctly labelled and counted, each
/// ranked by count descending.
pub open spec fn summary_rankings_ok(
    rows: Seq<Row>,
    app_rank: Seq<KeyCount>,
    site_rank: Seq<KeyCount>,
    audio_rank: Seq<KeyCount>,
    app_entries: Seq<KeyCount>,
    site_entries: Seq<KeyCount>,
    audio_entries: Seq<KeyCount>,
) -> bool {
    &&& app_summary_entries_ok(app_entries, rows)
    &&& ranked_desc(app_rank, app_entries)
    &&& site_summary_entries_ok(site_entries, rows)
    &&& ranked_desc(site_rank, site_entries)
    &&& audio_summary_entries_ok(audio_entries, rows)
    &&& ranked_desc(audio_rank, audio_entries)
}

/// The summary texts of a row stream: the app usage summary, then the
/// website summary when any domain was seen, then the audio summary
/// when any app had audio. Lists are capped at the top ten apps, ten
/// domains, and five audio apps.
pub open spec fn summary_texts(
    rows: Seq<Row>,
    app_rank: Seq<KeyCount>,
    site_rank: Seq<KeyCount>,
    audio_rank: Seq<KeyCount>,
) -> Seq<Seq<char>> {
    seq![
        "App Usage Summary ("@ + dec_str_of(crate::analyzer::app_keys(rows).len())
            + " apps): "@ + joined_labels(capped(app_rank, 10)),
    ] + (if crate::analyzer::domain_keys(rows).len() > 0 {
        seq![
            "Website Usage ("@ + dec_str_of(crate::analyzer::domain_keys(rows).len())
                + " domains): "@ + joined_labels(capped(site_rank, 10)),
        ]
    } else {
        Seq::empty()
    }) + (if crate::analyzer::audio_app_keys(rows).len() > 0 {
        seq![
            "Audio Activity ("@ + dec_str_of(crate::analyzer::audio_app_keys(rows).len())
                + " apps with audio): "@ + joined_labels(capped(audio_rank, 5)),
        ]
    } else {
        Seq::empty()
    })
}

/// A chunk a summary may carry: tagged "summary" at file index zero,
/// with a fresh id.
pub open spec fn summary_chunk_ok(c: DataChunk) -> bool {
    &&& c.metadata.source_type@ == "summary"@
    &&& c.metadata.file_index == Some(0usize)
    &&& c.id@.len() == 36
}

/// Join the top `cap` labels of a ranking with commas.
fn join_capped(v: &Vec<KeyCount>, cap: usize) -> (r: String)
    ensures
        r@ == joined_labels(capped(v@, cap as int)),
{
    let m = if cap < v.len() {
        cap
    } else {
        v.len()
    };
    let mut r = String::new();
    let mut k: usize = 0;
    proof {
        assert(joined_labels(v@.take(0)) =~= Seq::<char>::empty());
    }
    while k < m
        invariant
            m <= v@.len(),
            k <= m,
            r@ == joined_labels(v@.take(k as int)),
        decreases m - k,
    {
        proof {
            assert(v@.take(k + 1).drop_last() =~= v@.take(k as int));
            assert(v@.take(k + 1).last() == v@[k as int]);
        }
        if k > 0 {
            r.append(", ");
        }
        r.append(v[k].key.as_str());
        proof {
            if k == 0 {
                assert(r@ =~= joined_labels(v@.take(1)));
            }
        }
        k = k + 1;
    }
    proof {
        if (cap as int) < v@.len() {
            assert(v@.take(m as int) == capped(v@, cap as int));
        } else {
            assert(v@.take(m as int) =~= v@);
        }
    }
    r
}

/// Chunk one summary text and append its chunks.
fn append_summary_text(chunks: &mut Vec<DataChunk>, text: &str)
    ensures
        contents_of(final(chunks)@) == contents_of(old(chunks)@) + packed_chunks(words_of(text@)),
        final(chunks)@.len() >= old(chunks)@.len(),
        final(chunks)@.take(old(chunks)@.len() as int) == old(chunks)@,
        forall|ci: int| old(chunks)@.len() <= ci < final(chunks)@.len()
            ==> summary_chunk_ok(#[trigger] final(chunks)@[ci]),
{
    let meta = MetaFields {
        app_name: None,
        timestamp: None,
        window_name: None,
        speaker_id: None,
    };
    let ghost pre = chunks@;
    let _ = ingest_text(chunks, text, "summary", 0, &meta);
    proof {
        assert forall|ci: int| pre.len() <= ci < chunks@.len() implies summary_chunk_ok(
            #[trigger] chunks@[ci],
        ) by {
            let j = ci - pre.len();
            assert(chunks@.skip(pre.len() as int)[j] == chunks@[ci]);
        }
    }
}

/// Build the labelled, counted entries for one summary list.
fn build_summary_entries(rows: &Vec<Row>, names: &Vec<String>, kind: SummaryKind) -> (entries: Vec<KeyCount>)
    requires
        kind is Apps ==> views_of(names@) == crate::analyzer::app_keys(rows@),
        kind is Sites ==> views_of(names@) == crate::analyzer::domain_keys(rows@),
        kind is Audio ==> views_of(names@) == crate::analyzer::audio_app_keys(rows@),
    ensures
        kind is Apps ==> app_summary_entries_ok(entries@, rows@),
        kind is Sites ==> site_summary_entries_ok(entries@, rows@),
        kind is Audio ==> audio_summary_entries_ok(entries@, rows@),
{
    let mut entries: Vec<KeyCount> = Vec::new();
    let mut i: usize = 0;
    while i < names.len()
        invariant
            kind is Apps ==> views_of(names@) == crate::analyzer::app_keys(rows@),
            kind is Sites ==> views_of(names@) == crate::analyzer::domain_keys(rows@),
            kind is Audio ==> views_of(names@) == crate::analyzer::audio_app_keys(rows@),
            i <= names@.len(),
            entries@.len() == i,
            forall|j: int| 0 <= j < i ==> (#[trigger] entries@[j]).key@ == (match kind {
                SummaryKind::Apps => app_summary_line(rows@, names@[j]@),
                SummaryKind::Sites => site_summary_line(rows@, names@[j]@),
                SummaryKind::Audio => audio_summary_line(rows@, names@[j]@),
            }) && entries@[j].count == (match kind {
                SummaryKind::Apps => crate::analyzer::app_count(rows@, names@[j]@),
                SummaryKind::Sites => crate::analyzer::domain_count(rows@, names@[j]@),
                SummaryKind::Audio => crate::analyzer::audio_app_count(rows@, names@[j]@),
            }),
        decreases names@.len() - i,
    {
        let name = &names[i];
        let mut line = name.clone();
        let count: usize;
        match kind {
            SummaryKind::Apps => {
                let (c, _) = crate::analyzer::count_app(rows, name.as_str());
                let w = crate::analyzer::count_windows(rows, name.as_str());
                count = c;
                line.append(" (");
                line.append(usize_to_string(c).as_str());
                line.append(" frames, ");
                line.append(usize_to_string(w).as_str());
                line.append(" windows)");
            },
            SummaryKind::Sites => {
                let c = crate::analyzer::count_domain(rows, name.as_str());
                count = c;
                line.append(" (");
                line.append(usize_to_string(c).as_str());
                line.append(" visits)");
            },
            SummaryKind::Audio => {
                let c = crate::analyzer::count_audio_app(rows, name.as_str());
                count = c;
                line.append(" (");
                line.append(usize_to_string(c).as_str());
                line.append(" audio clips)");
            },
        }
        entries.push(KeyCount { key: line, count });
        i = i + 1;
    }
    proof {
        assert(forall|j: int| 0 <= j < names@.len() ==> views_of(names@)[j] == #[trigger] names@[j]@);
    }
    entries
}

/// Which summary list is being built.
enum SummaryKind {
    Apps,
    Sites,
    Audio,
}

/// Build the summary chunks of a row stream: the app usage summary
/// (top ten apps by frame count), the website summary (top ten domains
/// by visits) when any domain was seen, and the audio summary (top
/// five apps by clip count) when any app had audio, each chunked and
/// tagged "summary".
pub fn build_summary_chunks(rows: &Vec<Row>) -> (r: Vec<DataChunk>)
    ensures
        exists|app_rank: Seq<KeyCount>, site_rank: Seq<KeyCount>, audio_rank: Seq<KeyCount>,
            app_entries: Seq<KeyCount>, site_entries: Seq<KeyCount>, audio_entries: Seq<KeyCount>| {
            &&& #[trigger] summary_rankings_ok(rows@, app_rank, site_rank, audio_rank,
                app_entries, site_entries, audio_entries)
            &&& contents_of(r@) == packed_all(summary_texts(rows@, app_rank, site_rank, audio_rank))
        },
        forall|ci: int| 0 <= ci < r@.len() ==> summary_chunk_ok(#[trigger] r@[ci]),
{
    let app_names = crate::analyzer::collect_app_keys(rows);
    let site_names = crate::analyzer::collect_domain_keys(rows);
    let audio_names = crate::analyzer::collect_audio_app_keys(rows);
    let app_entries = build_summary_entries(rows, &app_names, SummaryKind::Apps);
    let site_entries = build_summary_entries(rows, &site_names, SummaryKind::Sites);
    let audio_entries = build_summary_entries(rows, &audio_names, SummaryKind::Audio);
    let ghost ae = app_entries@;
    let ghost se = site_entries@;
    let ghost aue = audio_entries@;
    let app_rank = crate::report::sort_key_counts_desc(app_entries);
    let site_rank = crate::report::sort_key_counts_desc(site_entries);
    let audio_rank = crate::report::sort_key_counts_desc(audio_entries);
    let ghost texts = summary_texts(rows@, app_rank@, site_rank@, audio_rank@);
    let mut r: Vec<DataChunk> = Vec::new();

    let mut text = String::from_str("App Usage Summary (");
    text.append(usize_to_string(app_names.len()).as_str());
    text.append(" apps): ");
    text.append(join_capped(&app_rank, 10).as_str());
    append_summary_text(&mut r, text.as_str());
    let ghost mut acc = seq![text@];
    proof {
        assert(app_names@.len() == views_of(app_names@).len());
        assert(contents_of(r@) =~= contents_of(Seq::<DataChunk>::empty())
            + packed_chunks(words_of(text@)));
        assert(packed_all(acc) =~= packed_chunks(words_of(text@))) by {
            reveal_with_fuel(packed_all, 2);
            assert(acc.drop_last() =~= Seq::<Seq<char>>::empty());
        }
        assert(contents_of(r@) =~= packed_all(acc));
    }

    if site_names.len() > 0 {
        let mut text2 = String::from_str("Website Usage (");
        text2.append(usize_to_string(site_names.len()).as_str());
        text2.append(" domains): ");
        text2.append(join_capped(&site_rank, 10).as_str());
        let ghost pre = r@;
        append_summary_text(&mut r, text2.as_str());
        proof {
            assert(site_names@.len() == views_of(site_names@).len());
            lemma_packed_all_snoc(acc, text2@);
            assert(contents_of(r@) =~= contents_of(pre) + packed_chunks(words_of(text2@)));
            acc = acc.push(text2@);
            assert(contents_of(r@) =~= packed_all(acc));
            assert forall|ci: int| 0 <= ci < r@.len() implies summary_chunk_ok(
                #[trigger] r@[ci],
            ) by {
                if ci < pre.len() {
                    assert(r@.take(pre.len() as int)[ci] == r@[ci]);
                }
            }
        }
    }
    if audio_names.len() > 0 {
        let mut text3 = String::from_str("Audio Activity (");
        text3.append(usize_to_string(audio_names.len()).as_str());
        text3.append(" apps with audio): ");
        text3.append(join_capped(&audio_rank, 5).as_str());
        let ghost pre = r@;
        append_summary_text(&mut r, text3.as_str());
        proof {
            assert(audio_names@.len() == views_of(audio_names@).len());
            lemma_packed_all_snoc(acc, text3@);
            assert(contents_of(r@) =~= contents_of(pre) + packed_chunks(words_of(text3@)));
            acc = acc.push(text3@);
            assert(contents_of(r@) =~= packed_all(acc));
            assert forall|ci: int| 0 <= ci < r@.len() implies summary_chunk_ok(
                #[trigger] r@[ci],
            ) by {
                if ci < pre.len() {
                    assert(r@.take(pre.len() as int)[ci] == r@[ci]);
                }
            }
        }
    }
    proof {
        assert(summary_rankings_ok(rows@, app_rank@, site_rank@, audio_rank@, ae, se, aue));
        assert(acc =~= texts);
    }
    r
}


impl RagService {
    /// Add already-built chunks (summaries, aggregated usage) to the
    /// corpus, creating it first if absent.
    pub fn ingest_chunks(&mut self, chunks: Vec<DataChunk>) -> (count: usize)
        ensures
            final(self).system matches Some(s) && {
                let before = match old(self).system {
                    Some(s0) => s0.chunks@,
                    None => Seq::empty(),
                };
                &&& s.chunks@ == before + chunks@
                &&& count == chunks@.len()
            },
    {
        if self.system.is_none() {
            self.system = Some(RAGSystem::new());
        }
        let ghost pre = match &self.system {
            Some(s) => s.chunks@,
            None => Seq::empty(),
        };
        let mut incoming = chunks;
        let count = incoming.len();
        match &mut self.system {
            Some(s) => {
                s.chunks.append(&mut incoming);
            },
            None => {
                proof {
                    assert(false);
                }
            },
        }
        proof {
            if old(self).system is None {
                assert(pre.len() == 0);
                assert(pre =~= Seq::<DataChunk>::empty());
            }
        }
        count
    }
}

/// One row of the aggregated time-usage query: per-app frame counts and
/// the observed span, in hundredths of a minute. Absent fields stay
/// absent, never an error.
pub struct AggRow {
    pub app_name: Option<String>,
    pub frame_count: u64,
    pub first_seen: Option<String>,
    pub last_seen: Option<String>,
    pub span_centi_minutes: u64,
    pub window_names: Option<String>,
}

/// An optional aggregate field, shown as "Unknown" when absent.
pub open spec fn agg_str(o: Option<String>) -> Seq<char> {
    match o {
        Some(s) => s@,
        None => "Unknown"@,
    }
}

/// A count of hundredths rendered with one (truncated) decimal place.
pub open spec fn deci_of_centi(c: u64) -> Seq<char> {
    dec_str_of((c / 100) as nat) + "."@ + dec_str_of(((c % 100) / 10) as nat)
}

/// The usage line of one aggregated row; active time is estimated as a
/// quarter of the observed span.
pub open spec fn agg_line(r: AggRow) -> Seq<char> {
    let act = (r.span_centi_minutes / 4) as u64;
    "App: "@ + (match r.app_name {
        Some(n) => n@,
        None => Seq::empty(),
    }) + " - Estimated Active Time: "@ + deci_of_centi(act) + " minutes ("@
        + deci_of_centi((act / 60) as u64) + " hours) - Total Span: "@
        + deci_of_centi(r.span_centi_minutes) + " minutes - Frames: "@
        + dec_str_of(r.frame_count as nat) + " - Period: "@ + agg_str(r.first_seen) + " to "@
        + agg_str(r.last_seen) + " - Windows: "@ + agg_str(r.window_names)
}

/// The usage lines of the aggregated rows that name an app, in order.
pub open spec fn agg_texts(rows: Seq<AggRow>) -> Seq<Seq<char>>
    decreases rows.len(),
{
    if rows.len() == 0 {
        Seq::empty()
    } else {
        agg_texts(rows.drop_last()) + match rows.last().app_name {
            Some(_) => seq![agg_line(rows.last())],
            None => Seq::empty(),
        }
    }
}

/// Total frames over the rows that name an app, saturating.
pub open spec fn agg_total_frames(rows: Seq<AggRow>) -> u64
    decreases rows.len(),
{
    if rows.len() == 0 {
        0
    } else {
        let rest = agg_total_frames(rows.drop_last());
        if rows.last().app_name is Some {
            crate::analyzer::sat_add_u64(rest, rows.last().frame_count)
        } else {
            rest
        }
    }
}

/// Total span over the rows that name an app, saturating.
pub open spec fn agg_total_span(rows: Seq<AggRow>) -> u64
    decreases rows.len(),
{
    if rows.len() == 0 {
        0
    } else {
        let rest = agg_total_span(rows.drop_last());
        if rows.last().app_name is Some {
            crate::analyzer::sat_add_u64(rest, rows.last().span_centi_minutes)
        } else {
            rest
        }
    }
}

/// The recorded first-seen stamps of the rows that name an app, in
/// order; an absent or "Unknown" stamp is left out.
pub open spec fn first_seen_list(rows: Seq<AggRow>) -> Seq<Seq<char>>
    decreases rows.len(),
{
    if rows.len() == 0 {
        Seq::empty()
    } else {
        let rest = first_seen_list(rows.drop_last());
        if rows.last().app_name is Some
            && (rows.last().first_seen matches Some(s) && s@ != "Unknown"@) {
            rest.push(rows.last().first_seen.unwrap()@)
        } else {
            rest
        }
    }
}

/// The recorded last-seen stamps, under the same rule.
pub open spec fn last_seen_list(rows: Seq<AggRow>) -> Seq<Seq<char>>
    decreases rows.len(),
{
    if rows.len() == 0 {
        Seq::empty()
    } else {
        let rest = last_seen_list(rows.drop_last());
        if rows.last().app_name is Some
            && (rows.last().last_seen matches Some(s) && s@ != "Unknown"@) {
            rest.push(rows.last().last_seen.unwrap()@)
        } else {
            rest
        }
    }
}

/// The lexicographically least stamp, or "Unknown" for an empty list.
pub open spec fn min_lex(l: Seq<Seq<char>>) -> Seq<char>
    decreases l.len(),
{
    if l.len() == 0 {
        "Unknown"@
    } else if l.len() == 1 {
        l[0]
    } else {
        let rest = min_lex(l.drop_last());
        if crate::text::lex_less(l.last(), rest) {
            l.last()
        } else {
            rest
        }
    }
}

/// The lexicographically greatest stamp, or "Unknown" for an empty list.
pub open spec fn max_lex(l: Seq<Seq<char>>) -> Seq<char>
    decreases l.len(),
{
    if l.len() == 0 {
        "Unknown"@
    } else if l.len() == 1 {
        l[0]
    } else {
        let rest = max_lex(l.drop_last());
        if crate::text::lex_less(rest, l.last()) {
            l.last()
        } else {
            rest
        }
    }
}

/// The overall screen-time summary line of an aggregated window.
pub open spec fn total_screen_line(rows: Seq<AggRow>) -> Seq<char> {
    let span = agg_total_span(rows);
    let act = (span / 4) as u64;
    "TOTAL SCREEN TIME SUMMARY - Total Active Time: "@ + deci_of_centi(act) + " minutes ("@
        + deci_of_centi((act / 60) as u64) + " hours) - Total Span: "@ + deci_of_centi(span)
        + " minutes - Total Frames: "@ + dec_str_of(agg_total_frames(rows) as nat)
        + " - Period: "@ + min_lex(first_seen_list(rows)) + " to "@
        + max_lex(last_seen_list(rows)) + " - Unique Apps Used: "@ + dec_str_of(rows.len())
}

/// Every text an aggregated window contributes: one usage line per row
/// that names an app, then the overall summary for a non-empty window.
pub open spec fn time_usage_texts(rows: Seq<AggRow>) -> Seq<Seq<char>> {
    agg_texts(rows) + if rows.len() > 0 {
        seq![total_screen_line(rows)]
    } else {
        Seq::empty()
    }
}

/// A chunk of the aggregated path: a per-app usage chunk or the overall
/// summary, with a file index and a fresh id.
pub open spec fn time_usage_chunk_ok(c: DataChunk) -> bool {
    &&& (c.metadata.source_type@ == "time_usage"@ || c.metadata.source_type@ == "total_screen_time"@)
    &&& c.metadata.file_index is Some
    &&& c.id@.len() == 36
}

/// Render a count of hundredths with one decimal place.
fn centi_deci_string(c: u64) -> (r: String)
    ensures
        r@ == deci_of_centi(c),
{
    let mut r = u64_to_string(c / 100);
    r.append(".");
    r.append(u64_to_string((c % 100) / 10).as_str());
    r
}

/// An optional aggregate field, or "Unknown".
fn agg_opt_str(o: &Option<String>) -> (s: &str)
    ensures
        s@ == agg_str(*o),
{
    match o {
        Some(s) => s.as_str(),
        None => "Unknown",
    }
}

/// The lexicographically least of the collected stamps.
fn min_lex_exec(list: &Vec<String>) -> (r: String)
    ensures
        r@ == min_lex(views_of(list@)),
{
    let ghost l = views_of(list@);
    if list.len() == 0 {
        return String::from_str("Unknown");
    }
    let mut best = list[0].clone();
    let mut i: usize = 1;
    proof {
        assert(l.take(1).len() == 1);
        assert(l.take(1)[0] == l[0]);
        assert(best@ == min_lex(l.take(1)));
    }
    while i < list.len()
        invariant
            l == views_of(list@),
            1 <= i <= l.len(),
            best@ == min_lex(l.take(i as int)),
        decreases l.len() - i,
    {
        proof {
            assert(l.take(i + 1).drop_last() =~= l.take(i as int));
            assert(l.take(i + 1).last() == l[i as int]);
        }
        if crate::text::str_lex_less(list[i].as_str(), best.as_str()) {
            best = list[i].clone();
        }
        i = i + 1;
    }
    proof {
        assert(l.take(l.len() as int) =~= l);
    }
    best
}

/// The lexicographically greatest of the collected stamps.
fn max_lex_exec(list: &Vec<String>) -> (r: String)
    ensures
        r@ == max_lex(views_of(list@)),
{
    let ghost l = views_of(list@);
    if list.len() == 0 {
        return String::from_str("Unknown");
    }
    let mut best = list[0].clone();
    let mut i: usize = 1;
    proof {
        assert(l.take(1).len() == 1);
        assert(l.take(1)[0] == l[0]);
        assert(best@ == max_lex(l.take(1)));
    }
    while i < list.len()
        invariant
            l == views_of(list@),
            1 <= i <= l.len(),
            best@ == max_lex(l.take(i as int)),
        decreases l.len() - i,
    {
        proof {
            assert(l.take(i + 1).drop_last() =~= l.take(i as int));
            assert(l.take(i + 1).last() == l[i as int]);
        }
        if crate::text::str_lex_less(best.as_str(), list[i].as_str()) {
            best = list[i].clone();
        }
        i = i + 1;
    }
    proof {
        assert(l.take(l.len() as int) =~= l);
    }
    best
}

/// Build the chunks of an aggregated time-usage window: one usage line
/// per row that names an app, tagged "time_usage", and for a non-empty
/// window the overall screen-time summary tagged "total_screen_time".
pub fn build_time_usage_chunks(rows: &Vec<AggRow>) -> (r: Vec<DataChunk>)
    ensures
        contents_of(r@) == packed_all(time_usage_texts(rows@)),
        forall|ci: int| 0 <= ci < r@.len() ==> time_usage_chunk_ok(#[trigger] r@[ci]),
{
    let mut r: Vec<DataChunk> = Vec::new();
    let mut total_frames: u64 = 0;
    let mut total_span: u64 = 0;
    let mut firsts: Vec<String> = Vec::new();
    let mut lasts: Vec<String> = Vec::new();
    let mut i: usize = 0;
    proof {
        assert(agg_texts(rows@.take(0)) =~= Seq::<Seq<char>>::empty());
        assert(contents_of(r@) =~= packed_all(agg_texts(rows@.take(0))));
        assert(first_seen_list(rows@.take(0)) =~= Seq::<Seq<char>>::empty());
        assert(last_seen_list(rows@.take(0)) =~= Seq::<Seq<char>>::empty());
        assert(views_of(firsts@) =~= first_seen_list(rows@.take(0)));
        assert(views_of(lasts@) =~= last_seen_list(rows@.take(0)));
    }
    while i < rows.len()
        invariant
            i <= rows@.len(),
            contents_of(r@) == packed_all(agg_texts(rows@.take(i as int))),
            total_frames == agg_total_frames(rows@.take(i as int)),
            total_span == agg_total_span(rows@.take(i as int)),
            views_of(firsts@) == first_seen_list(rows@.take(i as int)),
            views_of(lasts@) == last_seen_list(rows@.take(i as int)),
            forall|ci: int| 0 <= ci < r@.len() ==> time_usage_chunk_ok(#[trigger] r@[ci]),
        decreases rows@.len() - i,
    {
        proof {
            assert(rows@.take(i + 1).drop_last() =~= rows@.take(i as int));
            assert(rows@.take(i + 1).last() == rows@[i as int]);
        }
        match &rows[i].app_name {
            Some(n) => {
                let row = &rows[i];
                let act = row.span_centi_minutes / 4;
                let mut line = String::from_str("App: ");
                line.append(n.as_str());
                line.append(" - Estimated Active Time: ");
                line.append(centi_deci_string(act).as_str());
                line.append(" minutes (");
                line.append(centi_deci_string(act / 60).as_str());
                line.append(" hours) - Total Span: ");
                line.append(centi_deci_string(row.span_centi_minutes).as_str());
                line.append(" minutes - Frames: ");
                line.append(u64_to_string(row.frame_count).as_str());
                line.append(" - Period: ");
                line.append(agg_opt_str(&row.first_seen));
                line.append(" to ");
                line.append(agg_opt_str(&row.last_seen));
                line.append(" - Windows: ");
                line.append(agg_opt_str(&row.window_names));
                proof {
                    assert(line@ == agg_line(rows@[i as int]));
                }
                let meta = MetaFields {
                    app_name: Some(n.clone()),
                    timestamp: None,
                    window_name: None,
                    speaker_id: None,
                };
                let ghost pre = r@;
                let _ = ingest_text(&mut r, line.as_str(), "time_usage", i, &meta);
                proof {
                    lemma_packed_all_snoc(agg_texts(rows@.take(i as int)), agg_line(rows@[i as int]));
                    assert(agg_texts(rows@.take(i + 1))
                        =~= agg_texts(rows@.take(i as int)).push(agg_line(rows@[i as int])));
                    assert forall|ci: int| 0 <= ci < r@.len() implies time_usage_chunk_ok(
                        #[trigger] r@[ci],
                    ) by {
                        if ci < pre.len() {
                            assert(r@.take(pre.len() as int)[ci] == r@[ci]);
                        } else {
                            let j = ci - pre.len();
                            assert(r@.skip(pre.len() as int)[j] == r@[ci]);
                        }
                    }
                }
                total_frames = crate::analyzer::sat_add_wide(total_frames, row.frame_count);
                total_span = crate::analyzer::sat_add_wide(total_span, row.span_centi_minutes);
                match &row.first_seen {
                    Some(fs) => {
                        if !crate::text::str_eq(fs.as_str(), "Unknown") {
                            firsts.push(fs.clone());
                            proof {
                                assert(views_of(firsts@)
                                    =~= first_seen_list(rows@.take(i as int)).push(fs@));
                            }
                        }
                    },
                    None => {},
                }
                match &row.last_seen {
                    Some(ls) => {
                        if !crate::text::str_eq(ls.as_str(), "Unknown") {
                            lasts.push(ls.clone());
                            proof {
                                assert(views_of(lasts@)
                                    =~= last_seen_list(rows@.take(i as int)).push(ls@));
                            }
                        }
                    },
                    None => {},
                }
            },
            None => {
                proof {
                    assert(agg_texts(rows@.take(i + 1)) =~= agg_texts(rows@.take(i as int)));
                }
            },
        }
        i = i + 1;
    }
    proof {
        assert(rows@.take(rows@.len() as int) =~= rows@);
    }
    if rows.len() > 0 {
        let act = total_span / 4;
        let mut line = String::from_str("TOTAL SCREEN TIME SUMMARY - Total Active Time: ");
        line.append(centi_deci_string(act).as_str());
        line.append(" minutes (");
        line.append(centi_deci_string(act / 60).as_str());
        line.append(" hours) - Total Span: ");
        line.append(centi_deci_string(total_span).as_str());
        line.append(" minutes - Total Frames: ");
        line.append(u64_to_string(total_frames).as_str());
        line.append(" - Period: ");
        line.append(min_lex_exec(&firsts).as_str());
        line.append(" to ");
        line.append(max_lex_exec(&lasts).as_str());
        line.append(" - Unique Apps Used: ");
        line.append(usize_to_string(rows.len()).as_str());
        proof {
            assert(line@ == total_screen_line(rows@));
        }
        let meta = MetaFields {
            app_name: None,
            timestamp: None,
            window_name: None,
            speaker_id: None,
        };
        let ghost pre = r@;
        let _ = ingest_text(&mut r, line.as_str(), "total_screen_time", 0, &meta);
        proof {
            lemma_packed_all_snoc(agg_texts(rows@), total_screen_line(rows@));
            assert(agg_texts(rows@).push(total_screen_line(rows@)) =~= time_usage_texts(rows@));
            assert forall|ci: int| 0 <= ci < r@.len() implies time_usage_chunk_ok(
                #[trigger] r@[ci],
            ) by {
                if ci < pre.len() {
                    assert(r@.take(pre.len() as int)[ci] == r@[ci]);
                } else {
                    let j = ci - pre.len();
                    assert(r@.skip(pre.len() as int)[j] == r@[ci]);
                }
            }
        }
    } else {
        proof {
            assert(time_usage_texts(rows@) =~= agg_texts(rows@));
        }
    }
    r
}

} // verus!
