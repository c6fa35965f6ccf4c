use vstd::prelude::*;

use crate::chunker::DataChunk;

verus! {

/// One message of a chat request to the remote model provider.
pub struct OpenAIMessage {
    pub role: String,
    pub content: String,
}

/// One completion choice of the remote provider's reply.
pub struct OpenAIChoice {
    pub message: OpenAIMessage,
}

/// The remote provider's reply: a list of completion choices.
pub struct OpenAIResponse {
    pub choices: Vec<OpenAIChoice>,
}

/// The currently selected local model, if any.
pub struct ModelSelection {
    pub selected: Option<String>,
}

impl ModelSelection {
    /// Start with no model selected.
    pub fn new() -> (s: Self)
        ensures
            s.selected is None,
    {
        ModelSelection { selected: None }
    }

    /// Record `model` as the selected model.
    pub fn set_selected_model(&mut self, model: &str)
        ensures
            final(self).selected matches Some(m) && m@ == model@,
    {
        self.selected = Some(String::from_str(model));
    }

    /// The selected model, if one was recorded.
    pub fn get_selected_model(&self) -> (r: Option<String>)
        ensures
            crate::chunker::view_opt(r) == crate::chunker::view_opt(self.selected),
    {
        crate::chunker::clone_opt(&self.selected)
    }

    /// Forget the selected model.
    pub fn clear_selected_model(&mut self)
        ensures
            final(self).selected is None,
    {
        self.selected = None;
    }
}

/// The app name a chunk is presented under: its tagged name, or
/// "Unknown" when none was recorded.
pub open spec fn display_app_name(c: DataChunk) -> Seq<char> {
    match c.metadata.app_name {
        Some(n) => n@,
        None => "Unknown"@,
    }
}

/// One context line: `[source_type] app_name: content`.
pub open spec fn context_entry(c: DataChunk) -> Seq<char> {
    "["@ + c.metadata.source_type@ + "] "@ + display_app_name(c) + ": "@ + c.content@
}

/// The context block handed to the model: every ranked chunk's entry,
/// joined by blank lines.
pub open spec fn context_of(chunks: Seq<DataChunk>) -> Seq<char>
    decreases chunks.len(),
{
    if chunks.len() == 0 {
        Seq::empty()
    } else if chunks.len() == 1 {
        context_entry(chunks[0])
    } else {
        context_of(chunks.drop_last()) + "\n\n"@ + context_entry(chunks.last())
    }
}

/// The full prompt handed to a model provider: the context block, the
/// user's question, and the standing instruction to answer only from the
/// context and say when it is insufficient.
pub open spec fn rag_prompt(context: Seq<char>, query: Seq<char>) -> Seq<char> {
    "You are a helpful AI assistant analyzing digital activity data. Use the following context to answer the user's question accurately and insightfully.\n\nCONTEXT DATA:\n"@
        + context
        + "\n\nUSER QUESTION: "@
        + query
        + "\n\nPlease provide a comprehensive answer based on the context data above. Be specific and reference the actual content when possible. If the context doesn't contain enough information to answer the question, say so clearly.\n\nAnswer:"@
}

/// Build one context line for a chunk.
fn build_context_entry(c: &DataChunk) -> (r: String)
    ensures
        r@ == context_entry(*c),
{
    let mut r = String::from_str("[");
    r.append(c.metadata.source_type.as_str());
    r.append("] ");
    match &c.metadata.app_name {
        Some(n) => r.append(n.as_str()),
        None => r.append("Unknown"),
    }
    r.append(": ");
    r.append(c.content.as_str());
    r
}

/// Build the context block for the ranked chunks.
pub fn build_context(chunks: &Vec<DataChunk>) -> (r: String)
    ensures
        r@ == context_of(chunks@),
{
    let mut r = String::new();
    let mut i: usize = 0;
    while i < chunks.len()
        invariant
            i <= chunks.len(),
            r@ == context_of(chunks@.take(i as int)),
        decreases chunks.len() - i,
    {
        if i > 0 {
            r.append("\n\n");
        }
        let entry = build_context_entry(&chunks[i]);
        r.append(entry.as_str());
        proof {
            assert(chunks@.take(i + 1).drop_last() =~= chunks@.take(i as int));
            assert(chunks@.take(i + 1).last() == chunks@[i as int]);
            if i == 0 {
                assert(r@ =~= context_of(chunks@.take(i + 1)));
            }
        }
        i = i + 1;
    }
    proof {
        assert(chunks@.take(chunks@.len() as int) =~= chunks@);
    }
    r
}

/// Build the full prompt for a query and its ranked context chunks.
pub fn build_rag_prompt(query: &str, chunks: &Vec<DataChunk>) -> (r: String)
    ensures
        r@ == rag_prompt(context_of(chunks@), query@),
{
    let context = build_context(chunks);
    let mut r = String::from_str("You are a helpful AI assistant analyzing digital activity data. Use the following context to answer the user's question accurately and insightfully.\n\nCONTEXT DATA:\n");
    r.append(context.as_str());
    r.append("\n\nUSER QUESTION: ");
    r.append(query);
    r.append("\n\nPlease provide a comprehensive answer based on the context data above. Be specific and reference the actual content when possible. If the context doesn't contain enough information to answer the question, say so clearly.\n\nAnswer:");
    r
}

/// What the ordered fallback chain yields: the first provider success,
/// or, when every provider failed, the last provider's failure.
pub open spec fn chain_result(outcomes: Seq<Result<String, String>>) -> Result<String, String>
    recommends
        outcomes.len() > 0,
    decreases outcomes.len(),
{
    if outcomes.len() <= 1 {
        outcomes[0]
    } else if outcomes[0] is Ok {
        outcomes[0]
    } else {
        chain_result(outcomes.drop_first())
    }
}

/// One step of the fallback chain: keep an earlier success, otherwise
/// move on to the next provider's outcome.
pub fn fallback_step(so_far: Result<String, String>, next: Result<String, String>) -> (r: Result<String, String>)
    ensures
        so_far is Ok ==> r == so_far,
        so_far is Err ==> r == next,
{
    match so_far {
        Ok(t) => Ok(t),
        Err(_) => next,
    }
}

/// Resolve an ordered list of provider outcomes to the chain's answer.
pub fn resolve_fallback_chain(outcomes: Vec<Result<String, String>>) -> (r: Result<String, String>)
    requires
        outcomes@.len() > 0,
    ensures
        r == chain_result(outcomes@),
{
    let n = outcomes.len();
    let mut i: usize = 0;
    let ghost all = outcomes@;
    // Walk the outcomes in order; the first success ends the chain, and
    // the last outcome ends it whatever it holds.
    while i < n
        invariant
            n == all.len(),
            outcomes@ == all,
            n > 0,
            i < n,
            forall|j: int| 0 <= j < i ==> all[j] is Err,
        decreases n - i,
    {
        let cur = clone_outcome(&outcomes[i]);
        match cur {
            Ok(t) => {
                proof {
                    lemma_chain_prefix(all, i as int);
                }
                return Ok(t);
            },
            Err(e) => {
                if i == n - 1 {
                    proof {
                        lemma_chain_prefix(all, i as int);
                    }
                    return Err(e);
                }
            },
        }
        i = i + 1;
    }
    proof {
        assert(false);
    }
    Err(String::new())
}

/// Copy a provider outcome.
fn clone_outcome(o: &Result<String, String>) -> (r: Result<String, String>)
    ensures
        r == *o,
{
    match o {
        Ok(t) => Ok(t.clone()),
        Err(e) => Err(e.clone()),
    }
}

/// If the first `i` outcomes are failures, the chain's result is decided
/// at position `i`.
proof fn lemma_chain_prefix(all: Seq<Result<String, String>>, i: int)
    requires
        0 <= i < all.len(),
        forall|j: int| 0 <= j < i ==> all[j] is Err,
    ensures
        all[i] is Ok ==> chain_result(all) == all[i],
        all[i] is Err && i == all.len() - 1 ==> chain_result(all) == all[i],
    decreases i,
{
    if i > 0 {
        let t = all.drop_first();
        assert(forall|j: int| 0 <= j < i - 1 ==> t[j] is Err);
        lemma_chain_prefix(t, i - 1);
    }
}

/// When every provider in the chain fails, the chain surfaces the final
/// provider's failure, not a generic one.
pub proof fn lemma_chain_all_fail(outcomes: Seq<Result<String, String>>)
    requires
        outcomes.len() > 0,
        forall|i: int| 0 <= i < outcomes.len() ==> outcomes[i] is Err,
    ensures
        chain_result(outcomes) == outcomes.last(),
{
    lemma_chain_prefix(outcomes, outcomes.len() - 1);
}

/// Extract the generated text from the remote provider's reply: the first
/// choice's content, or a failure when no choice came back.
pub fn extract_openai_text(resp: &OpenAIResponse) -> (r: Result<String, String>)
    ensures
        resp.choices@.len() == 0 ==> (r matches Err(e) && e@ == "No response from OpenAI"@),
        resp.choices@.len() > 0 ==> (r matches Ok(t) && t@ == resp.choices@[0].message.content@),
{
    if resp.choices.len() == 0 {
        Err(String::from_str("No response from OpenAI"))
    } else {
        Ok(resp.choices[0].message.content.clone())
    }
}

} // verus!
