//! What the file tools decide, apart from touching the file system and the
//! terminal: how a listing reads, and how an edit is proposed and settled.

use crate::error::{AgentError, AgentErrorView};
use crate::text::{
    find, is_first_occurrence, join, joined, lemma_first_occurrence, occurs, occurs_at,
    replace_first, replace_first_in, trim, trimmed, views,
};
use crate::tools::{settled, ToolResultView};
use vstd::prelude::*;
use vstd::string::{StrSliceExecFns, StringExecFns};

verus! {

/// One entry of a directory, as the file system reported it. The name is
/// missing where it cannot be written as text.
#[derive(Debug, PartialEq, Eq)]
pub struct ListedEntry {
    pub is_dir: bool,
    pub name: Option<String>,
}

/// What the file system said of the path that is to be listed.
#[derive(Debug, PartialEq, Eq)]
pub enum Probe {
    /// Nothing is there.
    Missing,
    /// Something other than a directory is there.
    File,
    /// A directory is there, with these entries.
    Directory(Vec<ListedEntry>),
}

/// The line that shows one entry of a directory.
pub open spec fn entry_line(entry: ListedEntry) -> Seq<char> {
    let kind = if entry.is_dir {
        "[DIR] "@
    } else {
        "[FILE] "@
    };
    match entry.name {
        Some(name) => kind + name@,
        None => kind + "?"@,
    }
}

/// The lines that show the entries of a directory, in order.
pub open spec fn entry_lines(entries: Seq<ListedEntry>) -> Seq<Seq<char>> {
    entries.map_values(|entry: ListedEntry| entry_line(entry))
}

/// What listing `path` gives, going by what the file system said of it.
pub open spec fn listing_of(path: Seq<char>, probe: Probe) -> Result<Seq<char>, AgentErrorView> {
    match probe {
        Probe::Missing => Err(AgentErrorView::ToolError("not found: "@ + path)),
        Probe::File => Ok("[FILE] "@ + path),
        Probe::Directory(entries) => Ok(joined(entry_lines(entries@), "\n"@)),
    }
}

/// The line that shows one entry of a directory.
pub fn show_entry(entry: &ListedEntry) -> (line: String)
    ensures
        line@ == entry_line(*entry),
{
    let kind = if entry.is_dir {
        "[DIR] "
    } else {
        "[FILE] "
    };
    match &entry.name {
        Some(name) => String::from_str(kind).concat(name.as_str()),
        None => String::from_str(kind).concat("?"),
    }
}

/// What listing `path` gives, going by what the file system said of it: a
/// failure where nothing is there, one line for a file, and one line for
/// each entry of a directory.
pub fn list(path: &str, probe: &Probe) -> (listing: Result<String, AgentError>)
    ensures
        (match listing {
            Ok(text) => listing_of(path@, *probe) == Ok::<Seq<char>, AgentErrorView>(text@),
            Err(failure) => listing_of(path@, *probe) == Err::<Seq<char>, AgentErrorView>(
                failure@,
            ),
        }),
{
    match probe {
        Probe::Missing => Err(
            AgentError::ToolError(String::from_str("not found: ").concat(path)),
        ),
        Probe::File => Ok(String::from_str("[FILE] ").concat(path)),
        Probe::Directory(entries) => {
            let mut lines: Vec<String> = Vec::new();
            let mut i: usize = 0;
            while i < entries.len()
                invariant
                    i <= entries.len(),
                    lines@.len() == i,
                    forall|j: int| 0 <= j < i ==> lines@[j]@ == entry_line(entries@[j]),
                decreases entries.len() - i,
            {
                lines.push(show_entry(&entries[i]));
                i += 1;
            }
            assert(views(lines@) =~= entry_lines(entries@));
            Ok(join(&lines, "\n"))
        },
    }
}

/// What the edit tool is asked to do: in the file at `path`, put
/// `new_content` where `old_content` first stands.
#[derive(Debug, PartialEq, Eq)]
pub struct EditInput {
    pub path: String,
    pub old_content: String,
    pub new_content: String,
}

/// The kind of a change: a line that stays, one that goes, one that comes.
#[derive(Debug, Clone, Copy, PartialEq, Eq, Structural)]
pub enum ChangeTag {
    Equal,
    Delete,
    Insert,
}

/// A piece of text with the kind of change that it shows.
#[derive(Debug, PartialEq, Eq)]
pub struct LineChange {
    pub tag: ChangeTag,
    pub text: String,
}

/// The mathematical content of a [`LineChange`].
pub struct LineChangeView {
    pub tag: ChangeTag,
    pub text: Seq<char>,
}

impl View for LineChange {
    type V = LineChangeView;

    open spec fn view(&self) -> LineChangeView {
        LineChangeView { tag: self.tag, text: self.text@ }
    }
}

/// The changes that a list of pieces stands for.
pub open spec fn change_views(changes: Seq<LineChange>) -> Seq<LineChangeView> {
    changes.map_values(|change: LineChange| change@)
}

/// The line by line difference between two texts that `similar` computes
/// with its default settings, change by change: the tag of each change, and
/// the text that the change displays.
pub uninterp spec fn line_diff(old: Seq<char>, new: Seq<char>) -> Seq<LineChangeView>;

/// The most characters that two texts may have together to be compared line
/// by line. Long texts have their distinct lines numbered in 32 bits, and
/// texts within this limit cannot have more lines than there are numbers.
pub const DIFF_LIMIT: usize = 0xffff_ffff;

/// Calls `similar::TextDiff::from_lines` and walks the result with
/// `iter_all_changes`, taking of each change its tag and what it displays.
/// The contract gives the outcome a name and claims nothing else of it; the
/// outcome depends on the two texts alone, since no deadline is set.
#[verifier::external_body]
fn line_changes(old: &str, new: &str) -> (changes: Vec<LineChange>)
    requires
        old@.len() + new@.len() <= DIFF_LIMIT,
    ensures
        change_views(changes@) == line_diff(old@, new@),
{
    let diff = similar::TextDiff::from_lines(old, new);
    let mut changes = Vec::new();
    for change in diff.iter_all_changes() {
        let tag = match change.tag() {
            similar::ChangeTag::Equal => ChangeTag::Equal,
            similar::ChangeTag::Delete => ChangeTag::Delete,
            similar::ChangeTag::Insert => ChangeTag::Insert,
        };
        changes.push(LineChange { tag, text: change.to_string() });
    }
    changes
}

/// The most lines of unchanged context that are shown in a row.
pub const CONTEXT_LINES: usize = 2;

/// How many unchanged lines stand directly before place `at`, counted up to
/// the most that are shown.
pub open spec fn context_before(changes: Seq<LineChangeView>, at: int) -> int {
    if at >= 1 && changes[at - 1].tag == ChangeTag::Equal {
        if at >= 2 && changes[at - 2].tag == ChangeTag::Equal {
            2
        } else {
            1
        }
    } else {
        0
    }
}

/// The change at place `at` is shown: every line that goes or comes is, and
/// an unchanged line is unless two unchanged lines stand directly before it.
pub open spec fn shown(changes: Seq<LineChangeView>, at: int) -> bool {
    changes[at].tag != ChangeTag::Equal || context_before(changes, at) < CONTEXT_LINES
}

/// The sign that a shown line starts with.
pub open spec fn sign(tag: ChangeTag) -> char {
    match tag {
        ChangeTag::Equal => ' ',
        ChangeTag::Delete => '-',
        ChangeTag::Insert => '+',
    }
}

/// A change as it is shown: its sign, then its text.
pub open spec fn signed(change: LineChangeView) -> LineChangeView {
    LineChangeView { tag: change.tag, text: seq![sign(change.tag)] + change.text }
}

/// The changes that are shown, each with its sign, in order.
pub open spec fn rendered(changes: Seq<LineChangeView>) -> Seq<LineChangeView>
    decreases changes.len(),
{
    if changes.len() == 0 {
        Seq::empty()
    } else {
        let before = rendered(changes.drop_last());
        if shown(changes, changes.len() - 1) {
            before.push(signed(changes.last()))
        } else {
            before
        }
    }
}

/// What the operator sees before deciding: a line break, then the path once
/// behind `--- ` and once behind `+++ `, each with a line break after it,
/// then the changes that are shown.
pub open spec fn preview_of(path: Seq<char>, changes: Seq<LineChangeView>) -> Seq<LineChangeView> {
    seq![
        LineChangeView { tag: ChangeTag::Equal, text: "\n"@ },
        LineChangeView { tag: ChangeTag::Delete, text: "--- "@ + path },
        LineChangeView { tag: ChangeTag::Equal, text: "\n"@ },
        LineChangeView { tag: ChangeTag::Insert, text: "+++ "@ + path },
        LineChangeView { tag: ChangeTag::Equal, text: "\n"@ },
    ] + rendered(changes)
}

/// The changes that are shown, each with its sign, in order.
pub fn render(changes: &Vec<LineChange>) -> (lines: Vec<LineChange>)
    ensures
        change_views(lines@) == rendered(change_views(changes@)),
{
    let ghost all = change_views(changes@);
    let mut lines: Vec<LineChange> = Vec::new();
    let mut context_lines: usize = 0;
    let mut i: usize = 0;
    while i < changes.len()
        invariant
            i <= changes.len(),
            all == change_views(changes@),
            context_lines == context_before(all, i as int),
            change_views(lines@) == rendered(all.take(i as int)),
        decreases changes.len() - i,
    {
        let ghost upto = all.take(i + 1);
        let ghost before = change_views(lines@);
        proof {
            assert(upto.drop_last() == all.take(i as int));
            assert(upto.last() == changes@[i as int]@);
            assert(shown(upto, i as int) == shown(all, i as int));
        }
        let change = &changes[i];
        match change.tag {
            ChangeTag::Delete => {
                lines.push(
                    LineChange {
                        tag: ChangeTag::Delete,
                        text: String::from_str("-").concat(change.text.as_str()),
                    },
                );
                context_lines = 0;
                proof {
                    reveal_strlit("-");
                    assert(lines@.last()@.text =~= signed(change@).text);
                    assert(change_views(lines@) =~= before.push(signed(change@)));
                }
            },
            ChangeTag::Insert => {
                lines.push(
                    LineChange {
                        tag: ChangeTag::Insert,
                        text: String::from_str("+").concat(change.text.as_str()),
                    },
                );
                context_lines = 0;
                proof {
                    reveal_strlit("+");
                    assert(lines@.last()@.text =~= signed(change@).text);
                    assert(change_views(lines@) =~= before.push(signed(change@)));
                }
            },
            ChangeTag::Equal => {
                if context_lines < CONTEXT_LINES {
                    lines.push(
                        LineChange {
                            tag: ChangeTag::Equal,
                            text: String::from_str(" ").concat(change.text.as_str()),
                        },
                    );
                    context_lines += 1;
                    proof {
                        reveal_strlit(" ");
                        assert(lines@.last()@.text =~= signed(change@).text);
                        assert(change_views(lines@) =~= before.push(signed(change@)));
                    }
                }
            },
        }
        i += 1;
    }
    assert(all.take(changes@.len() as int) == all);
    lines
}

/// An edit that is ready for the operator's decision.
#[derive(Debug, PartialEq, Eq)]
pub struct Proposal {
    /// The file that the edit is for.
    pub path: String,
    /// What the file will hold if the edit is approved.
    pub updated: String,
    /// What the operator is shown, piece by piece.
    pub preview: Vec<LineChange>,
}

/// The question that follows the preview.
pub const CONFIRM_PROMPT: &'static str = "\napply changes? (y/n) ";

/// What the tool says when the edit was made.
pub const APPLIED: &'static str = "changes applied";

/// What the tool says when the operator turned the edit down.
pub const REJECTED: &'static str = "changes rejected";

/// The failure of an edit whose old content does not stand in the file.
pub open spec fn not_found_in(path: Seq<char>) -> AgentErrorView {
    AgentErrorView::ToolError("not found in "@ + path)
}

/// What the operator sees before deciding on these changes to the file at
/// `path`.
pub fn preview(path: &str, changes: &Vec<LineChange>) -> (pieces: Vec<LineChange>)
    ensures
        change_views(pieces@) == preview_of(path@, change_views(changes@)),
{
    let mut lines = render(changes);
    let ghost body = change_views(lines@);
    let mut pieces: Vec<LineChange> = Vec::new();
    pieces.push(LineChange { tag: ChangeTag::Equal, text: String::from_str("\n") });
    pieces.push(LineChange { tag: ChangeTag::Delete, text: String::from_str("--- ").concat(path) });
    pieces.push(LineChange { tag: ChangeTag::Equal, text: String::from_str("\n") });
    pieces.push(LineChange { tag: ChangeTag::Insert, text: String::from_str("+++ ").concat(path) });
    pieces.push(LineChange { tag: ChangeTag::Equal, text: String::from_str("\n") });
    let ghost head = change_views(pieces@);
    pieces.append(&mut lines);
    assert(change_views(pieces@) =~= head + body);
    assert(head =~= preview_of(path@, Seq::empty()));
    pieces
}

/// `outcome` is what preparing this edit of a file that holds `current`
/// comes to.
///
/// The edit fails if the old content does not stand in the file word for
/// word. Otherwise the proposal holds the file's content with the first
/// occurrence of the old content replaced by the new, and the preview of the
/// change from the old content to the new.
pub open spec fn proposes(
    current: Seq<char>,
    input: EditInput,
    outcome: Result<Proposal, AgentError>,
) -> bool {
    match outcome {
        Ok(proposal) => {
            &&& occurs(current, input.old_content@)
            &&& proposal.path@ == input.path@
            &&& proposal.updated@ == replace_first(
                current,
                input.old_content@,
                input.new_content@,
            )
            &&& change_views(proposal.preview@) == preview_of(
                input.path@,
                line_diff(input.old_content@, input.new_content@),
            )
        },
        Err(failure) => {
            &&& !occurs(current, input.old_content@)
            &&& failure@ == not_found_in(input.path@)
        },
    }
}

/// The old and the new content of this edit are together short enough to be
/// compared line by line.
pub open spec fn comparable(input: EditInput) -> bool {
    input.old_content@.len() + input.new_content@.len() <= DIFF_LIMIT
}

/// Prepares an edit of a file that holds `current`.
pub fn propose(current: &str, input: &EditInput) -> (outcome: Result<Proposal, AgentError>)
    requires
        comparable(*input),
    ensures
        proposes(current@, *input, outcome),
{
    if find(current, input.old_content.as_str()).is_none() {
        return Err(
            AgentError::ToolError(String::from_str("not found in ").concat(input.path.as_str())),
        );
    }
    let updated = replace_first_in(
        current,
        input.old_content.as_str(),
        input.new_content.as_str(),
    );
    let changes = line_changes(input.old_content.as_str(), input.new_content.as_str());
    let pieces = preview(input.path.as_str(), &changes);
    Ok(Proposal { path: input.path.clone(), updated, preview: pieces })
}

/// Prepares an edit of a file that holds `current`, unless its old and its
/// new content are together too long to be compared line by line.
pub fn try_propose(current: &str, input: &EditInput) -> (outcome: Option<
    Result<Proposal, AgentError>,
>)
    ensures
        outcome is Some <==> comparable(*input),
        outcome is Some ==> proposes(current@, *input, outcome->0),
{
    let old_length = input.old_content.as_str().unicode_len();
    let new_length = input.new_content.as_str().unicode_len();
    if old_length <= DIFF_LIMIT && new_length <= DIFF_LIMIT - old_length {
        Some(propose(current, input))
    } else {
        None
    }
}

/// `answer` says yes: it is the letter y, small or capital, and nothing else.
pub open spec fn says_yes(answer: Seq<char>) -> bool {
    answer == seq!['y'] || answer == seq!['Y']
}

/// The operator's response approves: apart from white space around it, it
/// says yes.
pub open spec fn approves(response: Seq<char>) -> bool {
    says_yes(trimmed(response))
}

/// Whether `answer` says yes.
pub fn is_yes(answer: &str) -> (yes: bool)
    ensures
        yes == says_yes(answer@),
{
    let answer = String::from_str(answer);
    proof {
        reveal_strlit("y");
        reveal_strlit("Y");
        assert("y"@ =~= seq!['y']);
        assert("Y"@ =~= seq!['Y']);
    }
    answer == String::from_str("y") || answer == String::from_str("Y")
}

/// Whether the operator's response approves.
pub fn is_approval(response: &str) -> (approved: bool)
    ensures
        approved == approves(response@),
{
    is_yes(trim(response))
}

/// How a proposed edit ended.
#[derive(Debug, PartialEq, Eq)]
pub enum Verdict {
    /// The operator approved: the file at `path` is to hold `content`.
    Apply { path: String, content: String },
    /// The operator did not approve: the file stays as it is.
    Reject,
}

/// The mathematical content of a [`Verdict`].
pub enum VerdictView {
    Apply { path: Seq<char>, content: Seq<char> },
    Reject,
}

impl View for Verdict {
    type V = VerdictView;

    open spec fn view(&self) -> VerdictView {
        match self {
            Verdict::Apply { path, content } => VerdictView::Apply {
                path: path@,
                content: content@,
            },
            Verdict::Reject => VerdictView::Reject,
        }
    }
}

impl VerdictView {
    /// What the tool says of the edit once the verdict is carried out.
    pub open spec fn message(self) -> Seq<char> {
        match self {
            VerdictView::Apply { .. } => APPLIED@,
            VerdictView::Reject => REJECTED@,
        }
    }
}

impl Verdict {
    /// What the tool says of the edit once the verdict is carried out.
    pub fn message(&self) -> (text: String)
        ensures
            text@ == self@.message(),
    {
        match self {
            Verdict::Apply { .. } => String::from_str(APPLIED),
            Verdict::Reject => String::from_str(REJECTED),
        }
    }
}

/// Settles a proposed edit by the operator's response: approval makes the
/// proposed content the file's, anything else leaves the file alone.
pub fn settle(proposal: Proposal, response: &str) -> (verdict: Verdict)
    ensures
        approves(response@) ==> verdict@ == (VerdictView::Apply {
            path: proposal.path@,
            content: proposal.updated@,
        }),
        !approves(response@) ==> verdict@ == VerdictView::Reject,
{
    if is_approval(response) {
        Verdict::Apply { path: proposal.path, content: proposal.updated }
    } else {
        Verdict::Reject
    }
}

/// How an edit of a file that holds `current` ends, given the operator's
/// response: it fails where the old content does not stand in the file, it
/// is applied where the response approves, and it is turned down otherwise.
pub open spec fn verdict_of(
    current: Seq<char>,
    path: Seq<char>,
    old_content: Seq<char>,
    new_content: Seq<char>,
    response: Seq<char>,
) -> Result<VerdictView, AgentErrorView> {
    if !occurs(current, old_content) {
        Err(not_found_in(path))
    } else if approves(response) {
        Ok(VerdictView::Apply { path, content: replace_first(current, old_content, new_content) })
    } else {
        Ok(VerdictView::Reject)
    }
}

/// What a file that held `current` holds once the verdict is carried out.
pub open spec fn content_after(current: Seq<char>, verdict: VerdictView) -> Seq<char> {
    match verdict {
        VerdictView::Apply { path, content } => content,
        VerdictView::Reject => current,
    }
}

/// A turned down edit changes nothing and is no error: where the old content
/// stands in the file and the response does not approve, the file holds
/// afterwards what it held before, and the tool's result says that the
/// changes were rejected, unmarked as an error.
pub proof fn lemma_rejection_changes_nothing(
    current: Seq<char>,
    path: Seq<char>,
    old_content: Seq<char>,
    new_content: Seq<char>,
    response: Seq<char>,
    tool_use_id: Seq<char>,
)
    requires
        occurs(current, old_content),
        !approves(response),
    ensures
        verdict_of(current, path, old_content, new_content, response) == Ok::<
            VerdictView,
            AgentErrorView,
        >(VerdictView::Reject),
        content_after(current, VerdictView::Reject) == current,
        settled(tool_use_id, Ok(VerdictView::Reject.message())) == (ToolResultView {
            tool_use_id,
            content: REJECTED@,
            is_error: false,
        }),
{
}

/// An approved edit replaces the first occurrence and nothing else.
///
/// Where the old content first stands at `first` and the response approves,
/// the file afterwards holds what stood before `first`, then the new content,
/// then what stood behind the first occurrence. An occurrence of the old
/// content at `second`, behind the first one, is still there, moved by the
/// difference in length between the new content and the old.
pub proof fn lemma_approval_replaces_first_only(
    current: Seq<char>,
    path: Seq<char>,
    old_content: Seq<char>,
    new_content: Seq<char>,
    response: Seq<char>,
    first: int,
    second: int,
)
    requires
        is_first_occurrence(current, old_content, first),
        occurs_at(current, old_content, second),
        first + old_content.len() <= second,
        approves(response),
    ensures
        ({
            let after = replace_first(current, old_content, new_content);
            let moved = second - old_content.len() + new_content.len();
            &&& verdict_of(current, path, old_content, new_content, response) == Ok::<
                VerdictView,
                AgentErrorView,
            >(VerdictView::Apply { path, content: after })
            &&& content_after(current, VerdictView::Apply { path, content: after }) == after
            &&& after.len() == current.len() - old_content.len() + new_content.len()
            &&& after.subrange(0, first) == current.subrange(0, first)
            &&& occurs_at(after, new_content, first)
            &&& after.subrange(first + new_content.len(), after.len() as int) == current.subrange(
                first + old_content.len(),
                current.len() as int,
            )
            &&& occurs_at(after, old_content, moved)
        }),
{
    lemma_first_occurrence(current, old_content, first);
    let after = replace_first(current, old_content, new_content);
    let head = current.subrange(0, first);
    let tail = current.subrange(first + old_content.len(), current.len() as int);
    let moved = second - old_content.len() + new_content.len();
    assert(after == head + new_content + tail);
    assert(after.subrange(0, first) =~= head);
    assert(after.subrange(first, first + new_content.len()) =~= new_content);
    assert(after.subrange(first + new_content.len(), after.len() as int) =~= tail);
    assert(after.subrange(moved, moved + old_content.len()) =~= current.subrange(
        second,
        second + old_content.len(),
    ));
}

/// How many unchanged lines stand at the end.
pub open spec fn trailing_context(lines: Seq<LineChangeView>) -> nat
    decreases lines.len(),
{
    if lines.len() > 0 && lines.last().tag == ChangeTag::Equal {
        1 + trailing_context(lines.drop_last())
    } else {
        0
    }
}

/// What is shown ends with as many unchanged lines as the changes do, but
/// with no more than are shown in a row.
proof fn lemma_trailing_context(changes: Seq<LineChangeView>)
    ensures
        trailing_context(changes) < CONTEXT_LINES ==> trailing_context(rendered(changes))
            == trailing_context(changes),
        trailing_context(changes) >= CONTEXT_LINES ==> trailing_context(rendered(changes))
            == CONTEXT_LINES,
        trailing_context(changes) >= context_before(changes, changes.len() as int),
        context_before(changes, changes.len() as int) < CONTEXT_LINES ==> trailing_context(changes)
            == context_before(changes, changes.len() as int),
    decreases changes.len(),
{
    if changes.len() > 0 {
        let before = changes.drop_last();
        lemma_trailing_context(before);
        let at = changes.len() - 1;
        assert(context_before(changes, at) == context_before(before, before.len() as int)) by {
            if at >= 1 {
                assert(before[at - 1] == changes[at - 1]);
            }
            if at >= 2 {
                assert(before[at - 2] == changes[at - 2]);
            }
        }
        if before.len() > 0 {
            let earlier = before.drop_last();
            assert(trailing_context(before) == if before.last().tag == ChangeTag::Equal {
                1 + trailing_context(earlier)
            } else {
                0
            });
            if earlier.len() > 0 {
                assert(earlier.last() == changes[at - 2]);
            }
        }
        if shown(changes, at) {
            let lines = rendered(before).push(signed(changes.last()));
            assert(lines.drop_last() == rendered(before));
            assert(lines.last().tag == changes.last().tag);
        }
    }
}

/// Context is bounded: among the lines that are shown, no more than two
/// unchanged lines stand in a row.
pub proof fn lemma_context_is_bounded(changes: Seq<LineChangeView>, at: int)
    requires
        0 <= at,
        at + CONTEXT_LINES < rendered(changes).len(),
    ensures
        !(rendered(changes)[at].tag == ChangeTag::Equal && rendered(changes)[at + 1].tag
            == ChangeTag::Equal && rendered(changes)[at + 2].tag == ChangeTag::Equal),
    decreases changes.len(),
{
    if changes.len() > 0 {
        let before = changes.drop_last();
        let last = changes.len() - 1;
        if shown(changes, last) {
            let lines = rendered(changes);
            assert(lines == rendered(before).push(signed(changes.last())));
            if at + CONTEXT_LINES < rendered(before).len() {
                lemma_context_is_bounded(before, at);
            } else {
                lemma_trailing_context(before);
                lemma_trailing_context(changes);
                let shorter = rendered(before);
                assert(lines.drop_last() == shorter);
                if lines[at].tag == ChangeTag::Equal && lines[at + 1].tag == ChangeTag::Equal
                    && lines[at + 2].tag == ChangeTag::Equal {
                    assert(shorter.last() == lines[at + 1]);
                    assert(shorter.drop_last().last() == lines[at]);
                    assert(trailing_context(shorter) == 1 + trailing_context(
                        shorter.drop_last(),
                    ));
                    assert(trailing_context(shorter.drop_last()) >= 1);
                    assert(trailing_context(lines) == 1 + trailing_context(shorter));
                }
            }
        } else {
            lemma_context_is_bounded(before, at);
        }
    }
}

/// The lines that go or come, in order, without the unchanged lines between
/// them.
pub open spec fn changes_only(lines: Seq<LineChangeView>) -> Seq<LineChangeView>
    decreases lines.len(),
{
    if lines.len() == 0 {
        Seq::empty()
    } else {
        let before = changes_only(lines.drop_last());
        if lines.last().tag != ChangeTag::Equal {
            before.push(lines.last())
        } else {
            before
        }
    }
}

/// Nothing that goes or comes is left out: the lines that go or come are
/// shown all, in their order, each with its sign.
pub proof fn lemma_changes_are_all_shown(changes: Seq<LineChangeView>)
    ensures
        changes_only(rendered(changes)) == changes_only(changes).map_values(
            |change: LineChangeView| signed(change),
        ),
    decreases changes.len(),
{
    let with_signs = |change: LineChangeView| signed(change);
    if changes.len() == 0 {
        assert(changes_only(rendered(changes)) =~= changes_only(changes).map_values(with_signs));
    } else {
        let before = changes.drop_last();
        let last = changes.last();
        lemma_changes_are_all_shown(before);
        if shown(changes, changes.len() - 1) {
            let lines = rendered(before).push(signed(last));
            assert(lines.drop_last() == rendered(before));
            assert(lines.last() == signed(last));
        }
        assert(changes_only(rendered(changes)) =~= changes_only(changes).map_values(with_signs));
    }
}

} // verus!
