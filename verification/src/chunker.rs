use vstd::prelude::*;

use crate::text::{
    is_space_char, no_space, wf_words, words_of, views_of, split_words,
    lemma_split_run_app, split_run, split_step,
};

verus! {

/// Upper bound, in characters, on a chunk built from more than one word.
pub const CHUNK_SIZE: usize = 1000;

/// One step of greedy packing: append the next word to the running buffer,
/// flushing the buffer first when the word (plus one separating space)
/// would push it past `CHUNK_SIZE`.
pub open spec fn pack_step(st: (Seq<Seq<char>>, Seq<char>), w: Seq<char>) -> (Seq<Seq<char>>, Seq<char>) {
    if st.1.len() == 0 {
        (st.0, w)
    } else if st.1.len() + w.len() + 1 > CHUNK_SIZE {
        (st.0.push(st.1), w)
    } else {
        (st.0, st.1 + seq![' '] + w)
    }
}

/// Run greedy packing over a whole word list.
pub open spec fn pack_run(st: (Seq<Seq<char>>, Seq<char>), ws: Seq<Seq<char>>) -> (Seq<Seq<char>>, Seq<char>)
    decreases ws.len(),
{
    if ws.len() == 0 {
        st
    } else {
        pack_run(pack_step(st, ws[0]), ws.drop_first())
    }
}

/// The chunks that greedy packing produces from a word list.
pub open spec fn packed_chunks(ws: Seq<Seq<char>>) -> Seq<Seq<char>> {
    let st = pack_run((Seq::empty(), Seq::empty()), ws);
    if st.1.len() == 0 {
        st.0
    } else {
        st.0.push(st.1)
    }
}

/// The words of every chunk, concatenated in order.
pub open spec fn words_of_all(chunks: Seq<Seq<char>>) -> Seq<Seq<char>>
    decreases chunks.len(),
{
    if chunks.len() == 0 {
        Seq::empty()
    } else {
        words_of_all(chunks.drop_last()) + words_of(chunks.last())
    }
}

/// A chunk respects the size bound, or is a single unbroken word.
pub open spec fn chunk_len_ok(c: Seq<char>) -> bool {
    c.len() <= CHUNK_SIZE || no_space(c)
}

/// Packing the word list `a + b` is packing `a`, then `b`.
proof fn lemma_pack_run_app(st: (Seq<Seq<char>>, Seq<char>), a: Seq<Seq<char>>, b: Seq<Seq<char>>)
    ensures
        pack_run(st, a + b) == pack_run(pack_run(st, a), b),
    decreases a.len(),
{
    if a.len() == 0 {
        assert(a + b =~= b);
    } else {
        assert((a + b).drop_first() =~= a.drop_first() + b);
        lemma_pack_run_app(pack_step(st, a[0]), a.drop_first(), b);
    }
}

/// Packing one more word applies one packing step.
pub proof fn lemma_pack_run_snoc(st: (Seq<Seq<char>>, Seq<char>), ws: Seq<Seq<char>>, i: int)
    requires
        0 <= i < ws.len(),
    ensures
        pack_run(st, ws.take(i + 1)) == pack_step(pack_run(st, ws.take(i)), ws[i]),
{
    assert(ws.take(i + 1) =~= ws.take(i) + seq![ws[i]]);
    lemma_pack_run_app(st, ws.take(i), seq![ws[i]]);
    let st2 = pack_run(st, ws.take(i));
    assert(pack_run(st2, seq![ws[i]]) == pack_step(st2, ws[i])) by {
        reveal_with_fuel(pack_run, 2);
        assert(seq![ws[i]].drop_first() =~= Seq::<Seq<char>>::empty());
    }
}

/// Scanning whitespace-free text only extends the current word.
proof fn lemma_split_run_nospace(st: (Seq<Seq<char>>, Seq<char>), w: Seq<char>)
    requires
        no_space(w),
    ensures
        split_run(st, w) == (st.0, st.1 + w),
    decreases w.len(),
{
    if w.len() == 0 {
        assert(st.1 + w =~= st.1);
    } else {
        assert(!is_space_char(w[0]));
        let st1 = split_step(st, w[0]);
        assert(st1 == (st.0, st.1.push(w[0])));
        assert(no_space(w.drop_first())) by {
            assert(forall|j: int| 0 <= j < w.len() - 1 ==> w.drop_first()[j] == w[j + 1]);
        }
        lemma_split_run_nospace(st1, w.drop_first());
        assert(st.1.push(w[0]) + w.drop_first() =~= st.1 + w);
    }
}

/// A non-empty word with no whitespace is its own word list.
pub proof fn lemma_words_single(w: Seq<char>)
    requires
        w.len() > 0,
        no_space(w),
    ensures
        words_of(w) == seq![w],
{
    lemma_split_run_nospace((Seq::empty(), Seq::empty()), w);
    assert(Seq::<char>::empty() + w =~= w);
    assert(Seq::<Seq<char>>::empty().push(w) =~= seq![w]);
}

/// Joining a word onto a buffer with a single space appends exactly that
/// word to the buffer's word list.
pub proof fn lemma_words_join(cur: Seq<char>, w: Seq<char>)
    requires
        w.len() > 0,
        no_space(w),
    ensures
        words_of(cur + seq![' '] + w) == words_of(cur).push(w),
{
    let init = (Seq::<Seq<char>>::empty(), Seq::<char>::empty());
    lemma_split_run_app(init, cur + seq![' '], w);
    lemma_split_run_app(init, cur, seq![' ']);
    assert(cur + seq![' '] + w =~= (cur + seq![' ']) + w);
    let st_c = split_run(init, cur);
    assert(split_run(st_c, seq![' ']) == split_step(st_c, ' ')) by {
        reveal_with_fuel(split_run, 2);
        assert(seq![' '].drop_first() =~= Seq::<char>::empty());
    }
    let st_s = split_step(st_c, ' ');
    assert(is_space_char(' '));
    assert(st_s.1 =~= Seq::<char>::empty());
    lemma_split_run_nospace(st_s, w);
    assert(Seq::<char>::empty() + w =~= w);
    assert(st_s.0 == words_of(cur));
}

/// The packing invariant: every finished chunk and the running buffer obey
/// the size bound (or are a single long word), and together they carry
/// exactly the words seen so far.
proof fn lemma_pack_run_inv(st: (Seq<Seq<char>>, Seq<char>), ws: Seq<Seq<char>>)
    requires
        wf_words(ws),
        forall|i: int| 0 <= i < st.0.len() ==> chunk_len_ok(#[trigger] st.0[i]),
        chunk_len_ok(st.1),
    ensures
        forall|i: int| 0 <= i < pack_run(st, ws).0.len() ==> chunk_len_ok(#[trigger] pack_run(st, ws).0[i]),
        chunk_len_ok(pack_run(st, ws).1),
        words_of_all(pack_run(st, ws).0) + words_of(pack_run(st, ws).1)
            == words_of_all(st.0) + words_of(st.1) + ws,
    decreases ws.len(),
{
    if ws.len() == 0 {
        assert(words_of_all(st.0) + words_of(st.1) + ws =~= words_of_all(st.0) + words_of(st.1));
    } else {
        let w = ws[0];
        assert(w.len() > 0 && no_space(w));
        let st1 = pack_step(st, w);
        lemma_words_single(w);
        assert(forall|i: int| 0 <= i < st1.0.len() ==> chunk_len_ok(#[trigger] st1.0[i]) && words_of_all(st1.0) + words_of(st1.1) == words_of_all(st.0) + words_of(st.1) + seq![w]) by {
            lemma_pack_step_effect(st, w);
        }
        assert(words_of_all(st1.0) + words_of(st1.1) == words_of_all(st.0) + words_of(st.1) + seq![w]) by {
            lemma_pack_step_effect(st, w);
        }
        assert(chunk_len_ok(st1.1)) by {
            lemma_pack_step_effect(st, w);
        }
        assert(wf_words(ws.drop_first())) by {
            assert(forall|j: int| 0 <= j < ws.len() - 1 ==> ws.drop_first()[j] == ws[j + 1]);
        }
        lemma_pack_run_inv(st1, ws.drop_first());
        assert(words_of_all(st.0) + words_of(st.1) + seq![w] + ws.drop_first()
            =~= words_of_all(st.0) + words_of(st.1) + ws);
    }
}

/// What one packing step does to the carried words and the size bounds.
proof fn lemma_pack_step_effect(st: (Seq<Seq<char>>, Seq<char>), w: Seq<char>)
    requires
        w.len() > 0,
        no_space(w),
        forall|i: int| 0 <= i < st.0.len() ==> chunk_len_ok(#[trigger] st.0[i]),
        chunk_len_ok(st.1),
    ensures
        forall|i: int| 0 <= i < pack_step(st, w).0.len() ==> chunk_len_ok(#[trigger] pack_step(st, w).0[i]),
        chunk_len_ok(pack_step(st, w).1),
        words_of_all(pack_step(st, w).0) + words_of(pack_step(st, w).1)
            == words_of_all(st.0) + words_of(st.1) + seq![w],
{
    lemma_words_single(w);
    let st1 = pack_step(st, w);
    if st.1.len() == 0 {
        assert(words_of(st.1) =~= Seq::<Seq<char>>::empty()) by {
            assert(st.1 =~= Seq::<char>::empty());
        }
        assert(words_of_all(st1.0) + words_of(st1.1) =~= words_of_all(st.0) + words_of(st.1) + seq![w]);
    } else if st.1.len() + w.len() + 1 > CHUNK_SIZE {
        assert(st1.0 == st.0.push(st.1));
        assert(st1.0.drop_last() =~= st.0);
        assert(st1.0.last() == st.1);
        assert(words_of_all(st1.0) == words_of_all(st.0) + words_of(st.1));
        assert(forall|i: int| 0 <= i < st.0.len() ==> st1.0[i] == st.0[i]);
        assert(words_of_all(st1.0) + words_of(st1.1) =~= words_of_all(st.0) + words_of(st.1) + seq![w]);
    } else {
        lemma_words_join(st.1, w);
        assert(words_of_all(st1.0) + words_of(st1.1) =~= words_of_all(st.0) + words_of(st.1) + seq![w]);
    }
}

/// Greedy packing is faithful: every chunk stays within `CHUNK_SIZE`
/// unless it is a single unbroken word, and the chunks' words, read in
/// order, are exactly the input words.
pub proof fn lemma_packed_chunks_ok(ws: Seq<Seq<char>>)
    requires
        wf_words(ws),
    ensures
        forall|i: int| 0 <= i < packed_chunks(ws).len() ==> chunk_len_ok(#[trigger] packed_chunks(ws)[i]),
        words_of_all(packed_chunks(ws)) == ws,
        ws.len() == 0 ==> packed_chunks(ws).len() == 0,
        ws.len() > 0 ==> packed_chunks(ws).len() > 0,
    decreases ws.len(),
{
    let init = (Seq::<Seq<char>>::empty(), Seq::<char>::empty());
    lemma_pack_run_inv(init, ws);
    let st = pack_run(init, ws);
    assert(words_of_all(init.0) =~= Seq::<Seq<char>>::empty());
    assert(words_of(init.1) =~= Seq::<Seq<char>>::empty()) by {
        assert(init.1 =~= Seq::<char>::empty());
    }
    assert(words_of_all(st.0) + words_of(st.1) =~= ws);
    let packed = packed_chunks(ws);
    if st.1.len() == 0 {
        assert(words_of(st.1) =~= Seq::<Seq<char>>::empty());
        assert(words_of_all(packed) =~= words_of_all(st.0) + words_of(st.1));
    } else {
        assert(packed == st.0.push(st.1));
        assert(packed.drop_last() =~= st.0);
        assert(packed.last() == st.1);
        assert(words_of_all(packed) == words_of_all(st.0) + words_of(st.1));
        assert(forall|i: int| 0 <= i < st.0.len() ==> packed[i] == st.0[i]);
    }
    if ws.len() > 0 {
        assert(packed.len() > 0) by {
            if packed.len() == 0 {
                assert(words_of_all(packed) =~= Seq::<Seq<char>>::empty());
            }
        }
    }
}

/// Pack a word list greedily into chunks of at most `CHUNK_SIZE`
/// characters, never splitting a word.
pub fn pack_words(words: &Vec<String>) -> (chunks: Vec<String>)
    ensures
        views_of(chunks@) == packed_chunks(views_of(words@)),
{
    let ghost ws = views_of(words@);
    let mut chunks: Vec<String> = Vec::new();
    let mut cur: String = String::new();
    let mut cur_len: usize = 0;
    let mut i: usize = 0;
    proof {
        assert(ws.take(0) =~= Seq::<Seq<char>>::empty());
    }
    while i < words.len()
        invariant
            ws == views_of(words@),
            i <= words.len(),
            cur_len == cur@.len(),
            ({
                let st = pack_run((Seq::empty(), Seq::empty()), ws.take(i as int));
                &&& st.0 == views_of(chunks@)
                &&& st.1 == cur@
            }),
        decreases words.len() - i,
    {
        let w = &words[i];
        let wlen = w.as_str().unicode_len();
        proof {
            lemma_pack_run_snoc((Seq::empty(), Seq::empty()), ws, i as int);
            assert(ws[i as int] == w@);
        }
        if cur_len == 0 {
            cur = w.clone();
            cur_len = wlen;
        } else if wlen > CHUNK_SIZE || cur_len > CHUNK_SIZE || cur_len + wlen + 1 > CHUNK_SIZE {
            chunks.push(cur);
            proof {
                let st = pack_run((Seq::empty(), Seq::empty()), ws.take(i as int));
                assert(views_of(chunks@) =~= st.0.push(st.1));
            }
            cur = w.clone();
            cur_len = wlen;
        } else {
            cur.append(" ");
            cur.append(w.as_str());
            cur_len = cur_len + 1 + wlen;
            proof {
                let st = pack_run((Seq::empty(), Seq::empty()), ws.take(i as int));
                assert(cur@ =~= st.1 + seq![' '] + w@) by {
                    reveal_strlit(" ");
                }
            }
        }
        i = i + 1;
    }
    proof {
        assert(ws.take(words@.len() as int) =~= ws);
    }
    if cur_len > 0 {
        chunks.push(cur);
        proof {
            let st = pack_run((Seq::empty(), Seq::empty()), ws);
            assert(views_of(chunks@) =~= st.0.push(st.1));
        }
    }
    chunks
}

/// The optional free-form fields a caller may attach to the chunks of one
/// source record. A missing field stays missing; it is never an error.
pub struct MetaFields {
    pub app_name: Option<String>,
    pub timestamp: Option<String>,
    pub window_name: Option<String>,
    pub speaker_id: Option<String>,
}

/// Provenance metadata attached to a chunk, immutable once created.
pub struct ChunkMetadata {
    pub source_type: String,
    pub app_name: Option<String>,
    pub timestamp: Option<String>,
    pub window_name: Option<String>,
    pub speaker_id: Option<String>,
    pub file_index: Option<usize>,
}

/// A bounded fragment of source text: the unit of storage and retrieval.
pub struct DataChunk {
    pub id: String,
    pub content: String,
    pub metadata: ChunkMetadata,
}

/// The text of an optional string.
pub open spec fn view_opt(o: Option<String>) -> Option<Seq<char>> {
    match o {
        Some(s) => Some(s@),
        None => None,
    }
}

/// Copy an optional string.
pub fn clone_opt(o: &Option<String>) -> (r: Option<String>)
    ensures
        r == *o,
{
    match o {
        Some(s) => Some(s.clone()),
        None => None,
    }
}

/// Copy chunk metadata.
pub fn clone_metadata(m: &ChunkMetadata) -> (r: ChunkMetadata)
    ensures
        r == *m,
{
    ChunkMetadata {
        source_type: m.source_type.clone(),
        app_name: clone_opt(&m.app_name),
        timestamp: clone_opt(&m.timestamp),
        window_name: clone_opt(&m.window_name),
        speaker_id: clone_opt(&m.speaker_id),
        file_index: m.file_index,
    }
}

/// Copy a chunk.
pub fn clone_chunk(c: &DataChunk) -> (r: DataChunk)
    ensures
        r == *c,
{
    DataChunk {
        id: c.id.clone(),
        content: c.content.clone(),
        metadata: clone_metadata(&c.metadata),
    }
}

/// Relies on uuid::Uuid::new_v4 and its Display form: a fresh random
/// identifier rendered in the 36-character hyphenated format.
#[verifier::external_body]
fn fresh_chunk_id() -> (r: String)
    ensures
        r@.len() == 36,
{
    uuid::Uuid::new_v4().to_string()
}

/// Whether a chunk list is exactly the greedy chunking of `text` tagged
/// with the given provenance.
pub open spec fn chunks_of_text(
    chunks: Seq<DataChunk>,
    text: Seq<char>,
    source_type: Seq<char>,
    file_index: usize,
    meta: MetaFields,
) -> bool {
    let packed = packed_chunks(words_of(text));
    &&& chunks.len() == packed.len()
    &&& forall|i: int| 0 <= i < chunks.len() ==> (#[trigger] chunks[i]).content@ == packed[i]
    &&& forall|i: int| 0 <= i < chunks.len() ==> {
        let m = (#[trigger] chunks[i]).metadata;
        &&& m.source_type@ == source_type
        &&& view_opt(m.app_name) == view_opt(meta.app_name)
        &&& view_opt(m.timestamp) == view_opt(meta.timestamp)
        &&& view_opt(m.window_name) == view_opt(meta.window_name)
        &&& view_opt(m.speaker_id) == view_opt(meta.speaker_id)
        &&& m.file_index == Some(file_index)
    }
    &&& forall|i: int| 0 <= i < chunks.len() ==> (#[trigger] chunks[i]).id@.len() == 36
}

/// Split `text` on whitespace, pack the words greedily into chunks of at
/// most `CHUNK_SIZE` characters (a single oversized word is kept whole),
/// and tag every chunk with a fresh id and the given provenance.
/// An input without words yields no chunks.
pub fn chunk_text(text: &str, source_type: &str, file_index: usize, meta: &MetaFields) -> (chunks: Vec<DataChunk>)
    ensures
        chunks_of_text(chunks@, text@, source_type@, file_index, *meta),
{
    let words = split_words(text);
    let pieces = pack_words(&words);
    let ghost packed = packed_chunks(words_of(text@));
    let mut chunks: Vec<DataChunk> = Vec::new();
    let mut i: usize = 0;
    while i < pieces.len()
        invariant
            views_of(pieces@) == packed,
            i <= pieces.len(),
            chunks@.len() == i,
            forall|j: int| 0 <= j < i ==> (#[trigger] chunks@[j]).content@ == packed[j],
            forall|j: int| 0 <= j < i ==> {
                let m = (#[trigger] chunks@[j]).metadata;
                &&& m.source_type@ == source_type@
                &&& view_opt(m.app_name) == view_opt(meta.app_name)
                &&& view_opt(m.timestamp) == view_opt(meta.timestamp)
                &&& view_opt(m.window_name) == view_opt(meta.window_name)
                &&& view_opt(m.speaker_id) == view_opt(meta.speaker_id)
                &&& m.file_index == Some(file_index)
            },
            forall|j: int| 0 <= j < i ==> (#[trigger] chunks@[j]).id@.len() == 36,
        decreases pieces.len() - i,
    {
        let metadata = ChunkMetadata {
            source_type: String::from_str(source_type),
            app_name: clone_opt(&meta.app_name),
            timestamp: clone_opt(&meta.timestamp),
            window_name: clone_opt(&meta.window_name),
            speaker_id: clone_opt(&meta.speaker_id),
            file_index: Some(file_index),
        };
        let chunk = DataChunk {
            id: fresh_chunk_id(),
            content: pieces[i].clone(),
            metadata,
        };
        chunks.push(chunk);
        i = i + 1;
    }
    chunks
}

/// Chunking is faithful to the source text: every chunk stays within
/// `CHUNK_SIZE` characters unless it is a single word that alone exceeds
/// the bound (words are never split), the chunks' words in order are
/// exactly the words of the text, a text without words yields no chunks,
/// and a text with words yields at least one chunk.
pub proof fn lemma_chunking_faithful(text: Seq<char>)
    ensures
        forall|i: int| 0 <= i < packed_chunks(words_of(text)).len()
            ==> chunk_len_ok(#[trigger] packed_chunks(words_of(text))[i]),
        words_of_all(packed_chunks(words_of(text))) == words_of(text),
        words_of(text).len() == 0 ==> packed_chunks(words_of(text)).len() == 0,
        words_of(text).len() > 0 ==> packed_chunks(words_of(text)).len() > 0,
{
    crate::text::lemma_words_of_wf(text);
    lemma_packed_chunks_ok(words_of(text));
}

} // verus!
