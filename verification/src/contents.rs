//! The document segmenter.
//!
//! A document is processed line by line by a four-state machine that turns it
//! into an ordered sequence of units: paragraph-like prose spans and fenced
//! code blocks. Heading lines and metadata blocks are consumed without ever
//! reaching a unit, and a trailing block that was never sealed (no closing
//! fence, no terminating blank line) is dropped rather than emitted.

use vstd::prelude::*;

use crate::lines::{spec_lines, split_lines};

verus! {

use vstd::string::StrSliceExecFns;
use vstd::string::StringExecFns;

broadcast use vstd::string::group_string_axioms;

/// What a unit is: a prose paragraph or a fenced code block.
#[derive(Clone, Copy, PartialEq, Eq, Structural, Debug)]
pub enum UnitKind {
    Prose,
    CodeBlock,
}

/// One retrievable unit of a document.
pub struct Unit {
    pub text: String,
    pub kind: UnitKind,
}

/// The mathematical shadow of a `Unit`.
pub ghost struct SpecUnit {
    pub text: Seq<char>,
    pub kind: UnitKind,
}

impl View for Unit {
    type V = SpecUnit;

    open spec fn view(&self) -> SpecUnit {
        SpecUnit { text: self.text@, kind: self.kind }
    }
}

impl DeepView for Unit {
    type V = SpecUnit;

    open spec fn deep_view(&self) -> SpecUnit {
        self@
    }
}

/// A line that opens or closes a fenced code block.
pub open spec fn is_fence_line(l: Seq<char>) -> bool {
    l.len() >= 3 && l[0] == '`' && l[1] == '`' && l[2] == '`'
}

/// A line that delimits a metadata block.
pub open spec fn is_meta_line(l: Seq<char>) -> bool {
    l.len() >= 3 && l[0] == '-' && l[1] == '-' && l[2] == '-'
}

/// A heading line.
pub open spec fn is_heading_line(l: Seq<char>) -> bool {
    l.len() >= 1 && l[0] == '#'
}

/// A blank line.
pub open spec fn is_blank_line(l: Seq<char>) -> bool {
    l.len() == 0
}

/// The segmenter's state: outside any block, inside a fenced code block,
/// inside a metadata block, or inside a prose paragraph.
#[derive(Clone, Copy, PartialEq, Eq, Structural, Debug)]
pub enum SegState {
    Idle,
    Code,
    Meta,
    Prose,
}

/// What one line does to the machine.
pub ghost struct StepResult {
    pub state: SegState,
    pub acc: Seq<char>,
    pub emit: Option<SpecUnit>,
}

/// One transition of the segmenter: from `state` with the unit text built so
/// far in `acc`, consume `line`.
pub open spec fn seg_step(state: SegState, acc: Seq<char>, line: Seq<char>) -> StepResult {
    match state {
        SegState::Idle => {
            if is_fence_line(line) {
                StepResult { state: SegState::Code, acc: line + seq!['\n'], emit: None }
            } else if is_meta_line(line) {
                StepResult { state: SegState::Meta, acc, emit: None }
            } else if !is_heading_line(line) && !is_blank_line(line) {
                StepResult { state: SegState::Prose, acc: line + seq!['\n'], emit: None }
            } else {
                StepResult { state: SegState::Idle, acc, emit: None }
            }
        },
        SegState::Code => {
            if is_fence_line(line) {
                StepResult {
                    state: SegState::Idle,
                    acc: Seq::empty(),
                    emit: Some(
                        SpecUnit { text: acc + line + seq!['\n'], kind: UnitKind::CodeBlock },
                    ),
                }
            } else {
                StepResult { state: SegState::Code, acc: acc + line + seq!['\n'], emit: None }
            }
        },
        SegState::Meta => {
            if is_meta_line(line) {
                StepResult { state: SegState::Idle, acc, emit: None }
            } else {
                StepResult { state: SegState::Meta, acc, emit: None }
            }
        },
        SegState::Prose => {
            if is_blank_line(line) {
                StepResult {
                    state: SegState::Idle,
                    acc: Seq::empty(),
                    emit: Some(SpecUnit { text: acc, kind: UnitKind::Prose }),
                }
            } else {
                StepResult { state: SegState::Prose, acc: acc + line + seq!['\n'], emit: None }
            }
        },
    }
}

/// Where the machine lands after a run of lines, and everything it emitted on
/// the way. A unit still under construction when the lines run out is
/// dropped: it sits in `acc`, never in `out`.
pub ghost struct RunResult {
    pub state: SegState,
    pub acc: Seq<char>,
    pub out: Seq<SpecUnit>,
}

pub open spec fn seg_fold(ls: Seq<Seq<char>>, state: SegState, acc: Seq<char>) -> RunResult
    decreases ls.len(),
{
    if ls.len() == 0 {
        RunResult { state, acc, out: Seq::empty() }
    } else {
        let r = seg_step(state, acc, ls[0]);
        let rest = seg_fold(ls.drop_first(), r.state, r.acc);
        RunResult {
            state: rest.state,
            acc: rest.acc,
            out: (match r.emit {
                Some(u) => seq![u],
                None => Seq::empty(),
            }) + rest.out,
        }
    }
}

/// The units of a document: run the machine from the idle state over the
/// document's lines.
pub open spec fn spec_segment(text: Seq<char>) -> Seq<SpecUnit> {
    seg_fold(spec_lines(text), SegState::Idle, Seq::empty()).out
}

fn starts_with_fence(l: &str) -> (b: bool)
    ensures
        b == is_fence_line(l@),
{
    l.unicode_len() >= 3 && l.get_char(0) == '`' && l.get_char(1) == '`' && l.get_char(2) == '`'
}

fn starts_with_meta(l: &str) -> (b: bool)
    ensures
        b == is_meta_line(l@),
{
    l.unicode_len() >= 3 && l.get_char(0) == '-' && l.get_char(1) == '-' && l.get_char(2) == '-'
}

fn starts_with_heading(l: &str) -> (b: bool)
    ensures
        b == is_heading_line(l@),
{
    l.unicode_len() >= 1 && l.get_char(0) == '#'
}

/// Appends `line` and a newline to the unit text under construction.
fn push_line(sentence: &mut String, line: &str)
    ensures
        final(sentence)@ == old(sentence)@ + line@ + seq!['\n'],
{
    sentence.append(line);
    sentence.append("\n");
    proof {
        reveal_strlit("\n");
        assert(("\n")@ =~= seq!['\n']);
    }
}

/// Splits `text` into units, exactly as `spec_segment` describes.
pub fn segment(text: &str) -> (units: Vec<Unit>)
    ensures
        units.deep_view() == spec_segment(text@),
{
    let ls = split_lines(text);
    let ghost all = spec_lines(text@);
    let mut units: Vec<Unit> = Vec::new();
    let mut state = SegState::Idle;
    let mut sentence = String::new();
    let mut idx: usize = 0;
    proof {
        assert(all.skip(0) =~= all);
        assert(units.deep_view() =~= Seq::<SpecUnit>::empty());
        assert(units.deep_view() + spec_segment(text@) =~= spec_segment(text@));
    }
    while idx < ls.len()
        invariant
            idx <= ls.len(),
            ls.deep_view() == all,
            spec_segment(text@) == units.deep_view() + seg_fold(
                all.skip(idx as int),
                state,
                sentence@,
            ).out,
        decreases ls.len() - idx,
    {
        let line: &String = &ls[idx];
        let ghost remaining = all.skip(idx as int);
        let ghost pre_state = state;
        let ghost pre_acc = sentence@;
        let ghost pre_units = units.deep_view();
        let ghost r = seg_step(state, sentence@, line@);
        proof {
            assert(remaining[0] == all[idx as int]);
            assert(all[idx as int] == ls.deep_view()[idx as int]);
            assert(ls.deep_view()[idx as int] == ls@[idx as int]@);
            assert(remaining.drop_first() =~= all.skip(idx as int + 1));
        }
        match state {
            SegState::Idle => {
                if starts_with_fence(line.as_str()) {
                    state = SegState::Code;
                    sentence = String::new();
                    push_line(&mut sentence, line.as_str());
                    proof {
                        assert(sentence@ =~= r.acc);
                    }
                } else if starts_with_meta(line.as_str()) {
                    state = SegState::Meta;
                } else if !starts_with_heading(line.as_str()) && line.as_str().unicode_len() != 0 {
                    sentence = String::new();
                    push_line(&mut sentence, line.as_str());
                    state = SegState::Prose;
                    proof {
                        assert(sentence@ =~= r.acc);
                    }
                }
            },
            SegState::Code => {
                push_line(&mut sentence, line.as_str());
                if starts_with_fence(line.as_str()) {
                    let ghost old_units = units.deep_view();
                    units.push(Unit { text: sentence, kind: UnitKind::CodeBlock });
                    sentence = String::new();
                    state = SegState::Idle;
                    proof {
                        assert(r.emit is Some);
                        assert(units.deep_view() =~= old_units + seq![r.emit->0]);
                    }
                }
            },
            SegState::Meta => {
                if starts_with_meta(line.as_str()) {
                    state = SegState::Idle;
                }
            },
            SegState::Prose => {
                if line.as_str().unicode_len() == 0 {
                    let ghost old_units = units.deep_view();
                    units.push(Unit { text: sentence, kind: UnitKind::Prose });
                    sentence = String::new();
                    state = SegState::Idle;
                    proof {
                        assert(r.emit is Some);
                        assert(units.deep_view() =~= old_units + seq![r.emit->0]);
                    }
                } else {
                    push_line(&mut sentence, line.as_str());
                }
            },
        }
        proof {
            assert(state == r.state);
            assert(sentence@ == r.acc);
            let tail = seg_fold(all.skip(idx as int + 1), r.state, r.acc);
            let emitted = (match r.emit {
                Some(u) => seq![u],
                None => Seq::<SpecUnit>::empty(),
            });
            assert(seg_fold(remaining, pre_state, pre_acc).out == emitted + tail.out);
            assert(units.deep_view() =~= pre_units + emitted);
            assert(pre_units + (emitted + tail.out) =~= (pre_units + emitted) + tail.out);
        }
        idx = idx + 1;
    }
    proof {
        assert(all.skip(idx as int) =~= Seq::<Seq<char>>::empty());
        assert(units.deep_view() + Seq::<SpecUnit>::empty() =~= units.deep_view());
    }
    units
}

/// The texts of a sequence of units, in order.
pub open spec fn unit_texts(us: Seq<SpecUnit>) -> Seq<Seq<char>> {
    us.map(|i: int, u: SpecUnit| u.text)
}

/// The mathematical shadow of a `File`.
pub ghost struct FileView {
    pub path: Seq<char>,
    pub contents: Seq<char>,
    pub sentences: Seq<Seq<char>>,
}

/// One document of the corpus: its corpus-relative path, its raw text, and
/// (after `parse`) the texts of its units.
pub struct File {
    pub path: String,
    pub contents: String,
    pub sentences: Vec<String>,
}

impl View for File {
    type V = FileView;

    open spec fn view(&self) -> FileView {
        FileView {
            path: self.path@,
            contents: self.contents@,
            sentences: self.sentences.deep_view(),
        }
    }
}

impl DeepView for File {
    type V = FileView;

    open spec fn deep_view(&self) -> FileView {
        self@
    }
}

impl File {
    /// A document fresh from disk: no units yet.
    pub fn new(path: String, contents: String) -> (f: File)
        ensures
            f.path == path,
            f.contents == contents,
            f@.sentences =~= Seq::<Seq<char>>::empty(),
    {
        File { path, contents, sentences: Vec::new() }
    }

    /// Runs the segmenter over the document's raw text and stores the unit
    /// texts, in source order. The path and the raw text are untouched.
    pub fn parse(&mut self)
        ensures
            final(self).path == old(self).path,
            final(self).contents == old(self).contents,
            final(self)@.sentences == unit_texts(spec_segment(old(self).contents@)),
    {
        let units = segment(self.contents.as_str());
        let mut texts: Vec<String> = Vec::new();
        let mut i: usize = 0;
        proof {
            assert(texts.deep_view() =~= unit_texts(units.deep_view()).take(0));
        }
        while i < units.len()
            invariant
                i <= units.len(),
                units.deep_view() == spec_segment(old(self).contents@),
                texts.deep_view() == unit_texts(units.deep_view()).take(i as int),
                self == old(self),
            decreases units.len() - i,
        {
            let ghost pre_texts = texts.deep_view();
            texts.push(units[i].text.clone());
            proof {
                assert(texts.deep_view() =~= pre_texts + seq![units@[i as int].text@]);
                assert(unit_texts(units.deep_view()).take(i as int + 1) =~= pre_texts + seq![
                    units@[i as int].text@,
                ]);
            }
            i = i + 1;
        }
        proof {
            assert(unit_texts(units.deep_view()).take(i as int) =~= unit_texts(
                units.deep_view(),
            ));
        }
        self.sentences = texts;
    }
}

/// The suffix test the corpus walk filters file names with.
pub open spec fn spec_ends_with(s: Seq<char>, suffix: Seq<char>) -> bool {
    s.len() >= suffix.len() && s.skip(s.len() - suffix.len()) == suffix
}

/// Whether `path` ends with the extension `ending`.
pub fn has_file_extension(path: &str, ending: &str) -> (b: bool)
    ensures
        b == spec_ends_with(path@, ending@),
{
    let n: usize = path.unicode_len();
    let m: usize = ending.unicode_len();
    if m > n {
        return false;
    }
    let mut i: usize = 0;
    while i < m
        invariant
            i <= m,
            m <= n,
            n == path@.len(),
            m == ending@.len(),
            forall|k: int| 0 <= k < i ==> path@[n - m + k] == ending@[k],
        decreases m - i,
    {
        if path.get_char(n - m + i) != ending.get_char(i) {
            proof {
                let tail = path@.skip(n as int - m as int);
                assert(tail[i as int] == path@[n - m + i as int]);
            }
            return false;
        }
        i = i + 1;
    }
    proof {
        assert(path@.skip(n as int - m as int) =~= ending@);
    }
    true
}

} // verus!
