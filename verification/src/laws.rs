//! Laws of the segmenter, stated and proved over its mathematical model.

use vstd::prelude::*;

use crate::contents::{
    is_blank_line, is_fence_line, is_heading_line, is_meta_line, seg_fold, seg_step, SegState,
    spec_segment, SpecUnit,
};
use crate::lines::spec_lines;

verus! {

/// Running the machine over `a + b` is running it over `a`, then over `b`
/// from where `a` left it; the emitted units concatenate.
pub proof fn lemma_seg_fold_append(a: Seq<Seq<char>>, b: Seq<Seq<char>>, st: SegState, acc: Seq<
    char,
>)
    ensures
        seg_fold(a + b, st, acc).state == seg_fold(
            b,
            seg_fold(a, st, acc).state,
            seg_fold(a, st, acc).acc,
        ).state,
        seg_fold(a + b, st, acc).acc == seg_fold(
            b,
            seg_fold(a, st, acc).state,
            seg_fold(a, st, acc).acc,
        ).acc,
        seg_fold(a + b, st, acc).out == seg_fold(a, st, acc).out + seg_fold(
            b,
            seg_fold(a, st, acc).state,
            seg_fold(a, st, acc).acc,
        ).out,
    decreases a.len(),
{
    if a.len() == 0 {
        assert(a + b =~= b);
        assert(Seq::<SpecUnit>::empty() + seg_fold(b, st, acc).out =~= seg_fold(b, st, acc).out);
    } else {
        let r = seg_step(st, acc, a[0]);
        assert((a + b)[0] == a[0]);
        assert((a + b).drop_first() =~= a.drop_first() + b);
        lemma_seg_fold_append(a.drop_first(), b, r.state, r.acc);
        let emitted = (match r.emit {
            Some(u) => seq![u],
            None => Seq::<SpecUnit>::empty(),
        });
        let ra = seg_fold(a, st, acc);
        let rb = seg_fold(b, ra.state, ra.acc);
        assert(emitted + (seg_fold(a.drop_first(), r.state, r.acc).out + rb.out) =~= (emitted
            + seg_fold(a.drop_first(), r.state, r.acc).out) + rb.out);
    }
}

/// Running the machine over a single line is one step.
proof fn lemma_seg_fold_one(l: Seq<char>, st: SegState, acc: Seq<char>)
    ensures
        seg_fold(seq![l], st, acc).state == seg_step(st, acc, l).state,
        seg_fold(seq![l], st, acc).acc == seg_step(st, acc, l).acc,
        seg_fold(seq![l], st, acc).out == (match seg_step(st, acc, l).emit {
            Some(u) => seq![u],
            None => Seq::<SpecUnit>::empty(),
        }),
{
    let one = seq![l];
    let r = seg_step(st, acc, l);
    assert(one.len() == 1);
    assert(one[0] == l);
    assert(one.drop_first() =~= Seq::<Seq<char>>::empty());
    assert(seg_fold(one.drop_first(), r.state, r.acc).out =~= Seq::<SpecUnit>::empty());
    let emitted = (match r.emit {
        Some(u) => seq![u],
        None => Seq::<SpecUnit>::empty(),
    });
    assert(emitted + Seq::<SpecUnit>::empty() =~= emitted);
}

/// While the machine is inside a metadata block, lines that are not a
/// metadata marker are discarded: no unit comes out, and the text under
/// construction is untouched.
proof fn lemma_meta_consumes(mid: Seq<Seq<char>>, acc: Seq<char>)
    requires
        forall|i: int| 0 <= i < mid.len() ==> !is_meta_line(#[trigger] mid[i]),
    ensures
        seg_fold(mid, SegState::Meta, acc).state == SegState::Meta,
        seg_fold(mid, SegState::Meta, acc).acc == acc,
        seg_fold(mid, SegState::Meta, acc).out == Seq::<SpecUnit>::empty(),
    decreases mid.len(),
{
    if mid.len() == 0 {
    } else {
        assert(!is_meta_line(mid[0]));
        lemma_meta_consumes(mid.drop_first(), acc);
        assert(Seq::<SpecUnit>::empty() + Seq::<SpecUnit>::empty() =~= Seq::<
            SpecUnit,
        >::empty());
    }
}

/// A whole metadata block — an opening marker line, any lines that are not
/// marker lines, and a closing marker line — consumed from the idle state
/// emits nothing and puts the machine back exactly where it stood.
pub proof fn lemma_meta_block_skipped(m1: Seq<char>, mid: Seq<Seq<char>>, m2: Seq<char>, acc: Seq<
    char,
>)
    requires
        is_meta_line(m1),
        is_meta_line(m2),
        forall|i: int| 0 <= i < mid.len() ==> !is_meta_line(#[trigger] mid[i]),
    ensures
        seg_fold(seq![m1] + mid + seq![m2], SegState::Idle, acc).state == SegState::Idle,
        seg_fold(seq![m1] + mid + seq![m2], SegState::Idle, acc).acc == acc,
        seg_fold(seq![m1] + mid + seq![m2], SegState::Idle, acc).out == Seq::<SpecUnit>::empty(),
{
    let block = seq![m1] + mid + seq![m2];
    assert(!is_fence_line(m1));
    assert(block[0] == m1);
    assert(block.drop_first() =~= mid + seq![m2]);
    lemma_meta_consumes(mid, acc);
    lemma_seg_fold_append(mid, seq![m2], SegState::Meta, acc);
    lemma_seg_fold_one(m2, SegState::Meta, acc);
    assert(seg_fold(block, SegState::Idle, acc).out =~= Seq::<SpecUnit>::empty());
}

/// A metadata block inserted where the machine is idle changes nothing: the
/// document with the block yields exactly the units of the document without
/// it.
pub proof fn lemma_meta_block_invisible(
    pre: Seq<Seq<char>>,
    m1: Seq<char>,
    mid: Seq<Seq<char>>,
    m2: Seq<char>,
    post: Seq<Seq<char>>,
)
    requires
        seg_fold(pre, SegState::Idle, Seq::empty()).state == SegState::Idle,
        is_meta_line(m1),
        is_meta_line(m2),
        forall|i: int| 0 <= i < mid.len() ==> !is_meta_line(#[trigger] mid[i]),
    ensures
        seg_fold(pre + (seq![m1] + mid + seq![m2]) + post, SegState::Idle, Seq::empty()).out
            == seg_fold(pre + post, SegState::Idle, Seq::empty()).out,
{
    let block = seq![m1] + mid + seq![m2];
    let rp = seg_fold(pre, SegState::Idle, Seq::empty());
    lemma_seg_fold_append(pre, block + post, SegState::Idle, Seq::empty());
    assert(pre + (block + post) =~= pre + block + post);
    lemma_seg_fold_append(block, post, SegState::Idle, rp.acc);
    lemma_meta_block_skipped(m1, mid, m2, rp.acc);
    lemma_seg_fold_append(pre, post, SegState::Idle, Seq::empty());
    assert(rp.out + (Seq::<SpecUnit>::empty() + seg_fold(post, SegState::Idle, rp.acc).out)
        =~= rp.out + seg_fold(post, SegState::Idle, rp.acc).out);
}

/// A heading line consumed where the machine is idle changes nothing: it
/// reaches no unit's text and disturbs no surrounding unit.
pub proof fn lemma_heading_line_invisible(pre: Seq<Seq<char>>, h: Seq<char>, post: Seq<Seq<char>>)
    requires
        seg_fold(pre, SegState::Idle, Seq::empty()).state == SegState::Idle,
        is_heading_line(h),
    ensures
        seg_fold(pre + seq![h] + post, SegState::Idle, Seq::empty()).out == seg_fold(
            pre + post,
            SegState::Idle,
            Seq::empty(),
        ).out,
{
    let rp = seg_fold(pre, SegState::Idle, Seq::empty());
    assert(!is_fence_line(h));
    assert(!is_meta_line(h));
    assert(!is_blank_line(h));
    lemma_seg_fold_append(pre, seq![h] + post, SegState::Idle, Seq::empty());
    assert(pre + (seq![h] + post) =~= pre + seq![h] + post);
    lemma_seg_fold_append(seq![h], post, SegState::Idle, rp.acc);
    lemma_seg_fold_one(h, SegState::Idle, rp.acc);
    assert(seg_fold(seq![h], SegState::Idle, rp.acc).out =~= Seq::<SpecUnit>::empty());
    assert(seg_fold(seq![h], SegState::Idle, rp.acc).state == SegState::Idle);
    assert(seg_fold(seq![h], SegState::Idle, rp.acc).acc == rp.acc);
    lemma_seg_fold_append(pre, post, SegState::Idle, Seq::empty());
    assert(rp.out + (Seq::<SpecUnit>::empty() + seg_fold(post, SegState::Idle, rp.acc).out)
        =~= rp.out + seg_fold(post, SegState::Idle, rp.acc).out);
}

/// A line that opens nothing special: no fence, no metadata marker, no
/// heading.
pub open spec fn plain_line(l: Seq<char>) -> bool {
    !is_fence_line(l) && !is_meta_line(l) && !is_heading_line(l)
}

/// The number of paragraphs sealed by a blank line: maximal runs of
/// non-blank lines that a blank line follows. `in_prose` says whether a run
/// is already open.
pub open spec fn sealed_paragraphs(ls: Seq<Seq<char>>, in_prose: bool) -> nat
    decreases ls.len(),
{
    if ls.len() == 0 {
        0
    } else if is_blank_line(ls[0]) {
        (if in_prose {
            1nat
        } else {
            0
        }) + sealed_paragraphs(ls.drop_first(), false)
    } else {
        sealed_paragraphs(ls.drop_first(), true)
    }
}

proof fn lemma_prose_only_count(ls: Seq<Seq<char>>, st: SegState, acc: Seq<char>)
    requires
        forall|i: int| 0 <= i < ls.len() ==> plain_line(#[trigger] ls[i]),
        st == SegState::Idle || st == SegState::Prose,
    ensures
        seg_fold(ls, st, acc).out.len() == sealed_paragraphs(ls, st == SegState::Prose),
    decreases ls.len(),
{
    if ls.len() == 0 {
    } else {
        assert(plain_line(ls[0]));
        let r = seg_step(st, acc, ls[0]);
        lemma_prose_only_count(ls.drop_first(), r.state, r.acc);
    }
}

/// Over a document with no fence, metadata or heading lines, the segmenter
/// emits exactly one unit per paragraph that a blank line terminates; a
/// trailing unterminated paragraph yields none.
pub proof fn lemma_prose_only_segment_count(text: Seq<char>)
    requires
        forall|i: int|
            0 <= i < spec_lines(text).len() ==> plain_line(#[trigger] spec_lines(text)[i]),
    ensures
        spec_segment(text).len() == sealed_paragraphs(spec_lines(text), false),
{
    lemma_prose_only_count(spec_lines(text), SegState::Idle, Seq::empty());
}

} // verus!
