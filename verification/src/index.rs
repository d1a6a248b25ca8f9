//! The indexing planner.
//!
//! Indexing is a full rebuild: the collection is reset, then every unit of
//! every document is embedded and upserted with a fresh point id drawn from a
//! single counter that starts at zero. The planner lays out that run ahead of
//! time: one upsert per unit, in document order, each carrying the unit's
//! text (what gets embedded) and the owning document's path (the metadata the
//! search hands back). The caller performs the embedding and upsert calls in
//! plan order; any service failure aborts the remainder of the run.

use vstd::prelude::*;

use crate::contents::{File, FileView};
use crate::query::spec_resolve;

verus! {

/// One planned upsert.
pub struct UpsertPoint {
    /// The unique point id; the vector store treats it as a replace key.
    pub point_id: u64,
    /// The owning document's path, stored as the point's metadata.
    pub document_id: String,
    /// The unit text to embed for this point.
    pub text: String,
}

/// The mathematical shadow of an `UpsertPoint`, remembering which document
/// it came from.
pub ghost struct SpecPoint {
    pub doc: int,
    pub path: Seq<char>,
    pub text: Seq<char>,
}

/// The points contributed by document `d`: one per unit, in unit order.
pub open spec fn file_points(f: FileView, d: int) -> Seq<SpecPoint> {
    f.sentences.map(|i: int, t: Seq<char>| SpecPoint { doc: d, path: f.path, text: t })
}

/// The whole plan: every document's points, in document order.
pub open spec fn spec_plan(files: Seq<FileView>) -> Seq<SpecPoint>
    decreases files.len(),
{
    if files.len() == 0 {
        Seq::empty()
    } else {
        spec_plan(files.drop_last()) + file_points(files.last(), files.len() - 1)
    }
}

/// The executable plan matches the mathematical one entry for entry, and
/// point ids are exactly the entry positions.
pub open spec fn plan_matches(plan: Seq<UpsertPoint>, pts: Seq<SpecPoint>) -> bool {
    &&& plan.len() == pts.len()
    &&& forall|i: int|
        0 <= i < plan.len() ==> {
            &&& (#[trigger] plan[i]).point_id == i as u64
            &&& plan[i].document_id@ == pts[i].path
            &&& plan[i].text@ == pts[i].text
        }
}

/// Lays out the index run for `files`: one upsert per unit, ids `0`, `1`,
/// ... in order, each entry tagged with its document's path.
pub fn plan_upserts(files: &Vec<File>) -> (plan: Vec<UpsertPoint>)
    ensures
        plan_matches(plan@, spec_plan(files.deep_view())),
{
    let ghost fv = files.deep_view();
    let mut plan: Vec<UpsertPoint> = Vec::new();
    let mut d: usize = 0;
    proof {
        assert(fv.take(0) =~= Seq::<FileView>::empty());
    }
    while d < files.len()
        invariant
            d <= files.len(),
            files.deep_view() == fv,
            plan_matches(plan@, spec_plan(fv.take(d as int))),
        decreases files.len() - d,
    {
        let f: &File = &files[d];
        let ghost base = spec_plan(fv.take(d as int));
        let ghost pts = file_points(fv[d as int], d as int);
        proof {
            assert(fv[d as int] == f@);
            assert(pts.len() == f@.sentences.len());
        }
        let mut u: usize = 0;
        proof {
            assert(base + pts.take(0) =~= base);
        }
        while u < f.sentences.len()
            invariant
                u <= f.sentences.len(),
                files.deep_view() == fv,
                0 <= d < fv.len(),
                f == files@[d as int],
                pts == file_points(fv[d as int], d as int),
                base == spec_plan(fv.take(d as int)),
                pts.len() == f@.sentences.len(),
                plan_matches(plan@, base + pts.take(u as int)),
            decreases f.sentences.len() - u,
        {
            let ghost pre = plan@;
            let point_id: u64 = plan.len() as u64;
            plan.push(
                UpsertPoint {
                    point_id,
                    document_id: f.path.clone(),
                    text: f.sentences[u].clone(),
                },
            );
            proof {
                assert(f@.sentences[u as int] == f.sentences@[u as int]@);
                assert(pts[u as int].text == f@.sentences[u as int]);
                assert(pts[u as int].path == f@.path);
                assert(base + pts.take(u as int + 1) =~= (base + pts.take(u as int)).push(
                    pts[u as int],
                ));
            }
            u = u + 1;
        }
        proof {
            assert(pts.take(pts.len() as int) =~= pts);
            let next = fv.take(d as int + 1);
            assert(next.drop_last() =~= fv.take(d as int));
            assert(next.last() == fv[d as int]);
            assert(spec_plan(next) == base + pts);
        }
        d = d + 1;
    }
    proof {
        assert(fv.take(d as int) =~= fv);
    }
    plan
}

/// No two documents share a path.
pub open spec fn paths_distinct(files: Seq<FileView>) -> bool {
    forall|i: int, j: int|
        0 <= i < j < files.len() ==> (#[trigger] files[i]).path != (#[trigger] files[j]).path
}

/// Every planned point belongs to a document of the corpus and carries that
/// document's path.
pub proof fn lemma_plan_points_owned(files: Seq<FileView>)
    ensures
        forall|i: int|
            0 <= i < spec_plan(files).len() ==> {
                let p = #[trigger] spec_plan(files)[i];
                &&& 0 <= p.doc < files.len()
                &&& p.path == files[p.doc].path
                &&& files[p.doc].sentences.contains(p.text)
            },
    decreases files.len(),
{
    if files.len() == 0 {
    } else {
        lemma_plan_points_owned(files.drop_last());
        let head = spec_plan(files.drop_last());
        let tail = file_points(files.last(), files.len() - 1);
        assert forall|i: int| 0 <= i < spec_plan(files).len() implies {
            let p = #[trigger] spec_plan(files)[i];
            &&& 0 <= p.doc < files.len()
            &&& p.path == files[p.doc].path
            &&& files[p.doc].sentences.contains(p.text)
        } by {
            if i < head.len() {
                let p = head[i];
                assert(files.drop_last()[p.doc] == files[p.doc]);
            } else {
                let p = tail[i - head.len()];
                assert(files.last() == files[files.len() - 1]);
                assert(files.last().sentences[i - head.len()] == p.text);
            }
        }
    }
}

/// With distinct document paths, a search hit on any planned point's
/// metadata resolves to exactly the raw text of the document that owns the
/// point: the index run loses no unit and mixes no documents up.
pub proof fn lemma_plan_points_resolve(files: Seq<FileView>)
    requires
        paths_distinct(files),
    ensures
        forall|i: int|
            0 <= i < spec_plan(files).len() ==> {
                let p = #[trigger] spec_plan(files)[i];
                &&& 0 <= p.doc < files.len()
                &&& spec_resolve(files, p.path) == Some(files[p.doc].contents)
            },
{
    lemma_plan_points_owned(files);
    assert forall|i: int| 0 <= i < spec_plan(files).len() implies {
        let p = #[trigger] spec_plan(files)[i];
        &&& 0 <= p.doc < files.len()
        &&& spec_resolve(files, p.path) == Some(files[p.doc].contents)
    } by {
        let p = spec_plan(files)[i];
        lemma_resolve_distinct(files, p.doc);
    }
}

/// With distinct paths, resolving document `d`'s own path finds document
/// `d`.
pub proof fn lemma_resolve_distinct(files: Seq<FileView>, d: int)
    requires
        paths_distinct(files),
        0 <= d < files.len(),
    ensures
        spec_resolve(files, files[d].path) == Some(files[d].contents),
    decreases files.len(),
{
    if d == 0 {
    } else {
        assert(files[0].path != files[d].path);
        assert forall|i: int, j: int|
            0 <= i < j < files.drop_first().len() implies (#[trigger] files.drop_first()[i]).path
            != (#[trigger] files.drop_first()[j]).path by {
            assert(files.drop_first()[i] == files[i + 1]);
            assert(files.drop_first()[j] == files[j + 1]);
        }
        lemma_resolve_distinct(files.drop_first(), d - 1);
        assert(files.drop_first()[d - 1] == files[d]);
    }
}

/// The plan has exactly one entry per unit of the corpus.
pub proof fn lemma_plan_len(files: Seq<FileView>)
    ensures
        spec_plan(files).len() == total_units(files),
    decreases files.len(),
{
    if files.len() == 0 {
    } else {
        lemma_plan_len(files.drop_last());
    }
}

/// How many units the corpus holds in all.
pub open spec fn total_units(files: Seq<FileView>) -> nat
    decreases files.len(),
{
    if files.len() == 0 {
        0
    } else {
        total_units(files.drop_last()) + files.last().sentences.len()
    }
}

} // verus!
