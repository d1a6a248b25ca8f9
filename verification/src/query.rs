//! The query pipeline's decision logic.
//!
//! A query is answered in four strictly ordered steps: embed the query text,
//! search the vector index for the nearest point, resolve the hit's document
//! path to the in-memory corpus and take that document's whole raw text as
//! grounding context, then open a completion stream over a fixed prompt
//! template. The embedding, the search and the stream are outside services;
//! everything they decide reaches this module as a plain value, and every
//! decision taken on those values is verified here. Any failure before the
//! stream has started collapses to a fixed single-fragment fallback stream.

use vstd::prelude::*;

use crate::contents::{File, FileView};

verus! {

use vstd::string::StringExecFns;

broadcast use vstd::string::group_string_axioms;

/// The raw text of the first document whose path is `id`, if any.
pub open spec fn spec_resolve(files: Seq<FileView>, id: Seq<char>) -> Option<Seq<char>>
    decreases files.len(),
{
    if files.len() == 0 {
        None
    } else if files[0].path == id {
        Some(files[0].contents)
    } else {
        spec_resolve(files.drop_first(), id)
    }
}

/// Resolves a search hit's document path back to the raw text used as
/// grounding context.
pub fn resolve_context(files: &Vec<File>, document_id: &String) -> (r: Option<String>)
    ensures
        match r {
            Some(c) => spec_resolve(files.deep_view(), document_id@) == Some(c@),
            None => spec_resolve(files.deep_view(), document_id@) is None,
        },
{
    let ghost fv = files.deep_view();
    let mut i: usize = 0;
    proof {
        assert(fv.skip(0) =~= fv);
    }
    while i < files.len()
        invariant
            i <= files.len(),
            files.deep_view() == fv,
            spec_resolve(fv, document_id@) == spec_resolve(fv.skip(i as int), document_id@),
        decreases files.len() - i,
    {
        let f: &File = &files[i];
        proof {
            assert(fv.skip(i as int)[0] == fv[i as int]);
            assert(fv[i as int] == f@);
        }
        if f.path == *document_id {
            return Some(f.contents.clone());
        }
        proof {
            assert(fv.skip(i as int).drop_first() =~= fv.skip(i as int + 1));
        }
        i = i + 1;
    }
    proof {
        assert(fv.skip(i as int) =~= Seq::<FileView>::empty());
    }
    None
}

/// The grounded prompt: the fixed template around the grounding context and
/// the user's question.
pub open spec fn spec_prompt(context: Seq<char>, question: Seq<char>) -> Seq<char> {
    ("Given the following context:\n")@ + context + ("\n\nRespond to the following:\n")@
        + question
}

/// Builds the grounded prompt handed to the completion stream.
pub fn build_prompt(context: &str, question: &str) -> (r: String)
    ensures
        r@ == spec_prompt(context@, question@),
{
    let mut r = String::new();
    r.append("Given the following context:\n");
    r.append(context);
    r.append("\n\nRespond to the following:\n");
    r.append(question);
    proof {
        assert(r@ =~= spec_prompt(context@, question@));
    }
    r
}

/// What one completion delta contributes to the relayed stream: its text, or
/// a single newline when it carries none.
pub open spec fn spec_fragment(content: Option<Seq<char>>) -> Seq<char> {
    match content {
        Some(c) => c,
        None => seq!['\n'],
    }
}

/// Turns one completion delta's optional text into the fragment relayed to
/// the caller.
pub fn fragment_text(content: &Option<String>) -> (r: String)
    ensures
        r@ == spec_fragment(content.deep_view()),
{
    match content {
        Some(c) => c.clone(),
        None => {
            let mut r = String::new();
            r.append("\n");
            proof {
                reveal_strlit("\n");
                assert(Seq::<char>::empty() + ("\n")@ =~= seq!['\n']);
            }
            r
        },
    }
}

/// What a whole delta renders to: its choices' fragments, concatenated in
/// arrival order.
pub open spec fn spec_render(choices: Seq<Option<Seq<char>>>) -> Seq<char>
    decreases choices.len(),
{
    if choices.len() == 0 {
        Seq::empty()
    } else {
        spec_render(choices.drop_last()) + spec_fragment(choices.last())
    }
}

/// Concatenates the fragments of one delta's choices, in order.
pub fn render_choices(choices: &Vec<Option<String>>) -> (r: String)
    ensures
        r@ == spec_render(choices.deep_view()),
{
    let ghost cv = choices.deep_view();
    let mut r = String::new();
    let mut i: usize = 0;
    proof {
        assert(cv.take(0) =~= Seq::<Option<Seq<char>>>::empty());
        assert(r@ =~= spec_render(cv.take(0)));
    }
    while i < choices.len()
        invariant
            i <= choices.len(),
            choices.deep_view() == cv,
            r@ == spec_render(cv.take(i as int)),
        decreases choices.len() - i,
    {
        let piece = fragment_text(&choices[i]);
        r.append(piece.as_str());
        proof {
            assert(choices@[i as int].deep_view() == cv[i as int]);
            let next = cv.take(i as int + 1);
            assert(next.drop_last() =~= cv.take(i as int));
            assert(next.last() == cv[i as int]);
        }
        i = i + 1;
    }
    proof {
        assert(cv.take(i as int) =~= cv);
    }
    r
}

/// The fixed text of the fallback stream.
pub fn fallback_message() -> (r: String)
    ensures
        r@ == ("Error with your prompt")@,
{
    let mut r = String::new();
    r.append("Error with your prompt");
    proof {
        assert(Seq::<char>::empty() + ("Error with your prompt")@ =~= (
        "Error with your prompt")@);
    }
    r
}

/// The whole fallback stream: exactly one fragment, carrying the fixed
/// message and nothing else.
pub fn fallback_fragments() -> (r: Vec<String>)
    ensures
        r@.len() == 1,
        r@[0]@ == ("Error with your prompt")@,
{
    let mut r: Vec<String> = Vec::new();
    r.push(fallback_message());
    r
}

/// Where a query stands: which outside call it needs next, or that it has
/// fallen back.
pub enum QueryStep {
    /// The query text still has to be embedded.
    NeedEmbedding,
    /// The index still has to be searched with the query's vector.
    NeedSearch,
    /// A completion stream still has to be opened over the resolved context.
    NeedStream { context: String },
    /// The stream is live; fragments are relayed unchanged.
    Streaming,
    /// A step failed before the stream started: serve the fallback stream.
    Fallback,
}

/// What an outside call came back with, as a plain value.
pub enum QueryEvent {
    /// The embedding call finished; the vector itself stays with the caller.
    Embedded { ok: bool },
    /// The search finished: the best hit's document path, if any was usable.
    Searched { document_id: Option<String> },
    /// The attempt to open the completion stream finished.
    StreamStarted { ok: bool },
}

/// Whether `event` is the answer the step is waiting for.
pub open spec fn event_fits(step: QueryStep, event: QueryEvent) -> bool {
    match (step, event) {
        (QueryStep::NeedEmbedding, QueryEvent::Embedded { .. }) => true,
        (QueryStep::NeedSearch, QueryEvent::Searched { .. }) => true,
        (QueryStep::NeedStream { .. }, QueryEvent::StreamStarted { .. }) => true,
        _ => false,
    }
}

/// Advances a query by one outside answer. Every failure, and a search hit
/// that resolves to no document, lands in `Fallback`; a resolved hit carries
/// the owning document's whole raw text forward as the grounding context.
pub fn advance_query(step: QueryStep, event: QueryEvent, files: &Vec<File>) -> (next: QueryStep)
    requires
        event_fits(step, event),
    ensures
        match event {
            QueryEvent::Embedded { ok } => next == (if ok {
                QueryStep::NeedSearch
            } else {
                QueryStep::Fallback
            }),
            QueryEvent::Searched { document_id } => match document_id {
                Some(id) => match spec_resolve(files.deep_view(), id@) {
                    Some(c) => next matches QueryStep::NeedStream { context } && context@ == c,
                    None => next == QueryStep::Fallback,
                },
                None => next == QueryStep::Fallback,
            },
            QueryEvent::StreamStarted { ok } => next == (if ok {
                QueryStep::Streaming
            } else {
                QueryStep::Fallback
            }),
        },
{
    match event {
        QueryEvent::Embedded { ok } => {
            if ok {
                QueryStep::NeedSearch
            } else {
                QueryStep::Fallback
            }
        },
        QueryEvent::Searched { document_id } => {
            match document_id {
                Some(id) => {
                    match resolve_context(files, &id) {
                        Some(context) => QueryStep::NeedStream { context },
                        None => QueryStep::Fallback,
                    }
                },
                None => QueryStep::Fallback,
            }
        },
        QueryEvent::StreamStarted { ok } => {
            if ok {
                QueryStep::Streaming
            } else {
                QueryStep::Fallback
            }
        },
    }
}

} // verus!
