//! One run, as a sequence of steps that a driver carries out.
//!
//! A run never touches the outside world itself. It says which step it wants
//! done next: run `git` to list the staged files or to print the diff of one
//! of them, ask the backend, write the clipboard. The driver does the work and tells the run
//! how it ended, and the run moves on. The steps come in one fixed order, no
//! step is asked for twice, and the first thing that goes wrong ends the run
//! for good.

use crate::diff::{
    diff_arguments, diff_command, diff_text, headers, lemma_excluded_files_have_no_header,
    listing_arguments, listing_command, names_of, render_diff, staged_files, staged_names,
    StagedFile, StagedFileView,
};
use crate::error::RunError;
use crate::options::{options_from, ModelTier, RunOptions, RunOptionsView};
use crate::output::{clipboard_payload, clipboard_text};
use crate::prompt::{accept_completion, accepted, prompt_text, render_prompt};
use crate::text::{decode_text, decoded, lines_of};
use vstd::prelude::*;

verus! {

/// What a run wants done next.
#[derive(Clone, Debug, PartialEq, Eq)]
pub enum Step {
    /// Run `git` with these arguments and hand back what it printed.
    RunGit { arguments: Vec<String> },
    /// Send the prompt to the backend of the given tier and hand back its
    /// answer.
    RequestCompletion { prompt: String, model: ModelTier },
    /// Put the text on the clipboard in place of what was there.
    WriteClipboard { text: String },
    /// The run is over and went well.
    Finish,
    /// The run is over and failed.
    Abort { error: RunError },
}

/// A step as plain values.
pub enum StepView {
    RunGit { arguments: Seq<Seq<char>> },
    RequestCompletion { prompt: Seq<char>, model: ModelTier },
    WriteClipboard { text: Seq<char> },
    Finish,
    Abort { error: RunError },
}

impl View for Step {
    type V = StepView;

    open spec fn view(&self) -> StepView {
        match *self {
            Step::RunGit { arguments } => StepView::RunGit { arguments: arguments.deep_view() },
            Step::RequestCompletion { prompt, model } => StepView::RequestCompletion {
                prompt: prompt@,
                model,
            },
            Step::WriteClipboard { text } => StepView::WriteClipboard { text: text@ },
            Step::Finish => StepView::Finish,
            Step::Abort { error } => StepView::Abort { error },
        }
    }
}

/// How the work of a step ended.
#[derive(Clone, Debug, PartialEq, Eq)]
pub enum Outcome {
    /// The subprocess ran, and this is all it wrote to its standard output.
    SubprocessOutput { bytes: Vec<u8> },
    /// The backend answered with this text.
    Completion { text: String },
    /// The clipboard holds the text.
    ClipboardWritten,
    /// The work could not be done.
    Failed,
}

/// An outcome as plain values.
pub enum OutcomeView {
    SubprocessOutput { bytes: Seq<u8> },
    Completion { text: Seq<char> },
    ClipboardWritten,
    Failed,
}

impl View for Outcome {
    type V = OutcomeView;

    open spec fn view(&self) -> OutcomeView {
        match *self {
            Outcome::SubprocessOutput { bytes } => OutcomeView::SubprocessOutput { bytes: bytes@ },
            Outcome::Completion { text } => OutcomeView::Completion { text: text@ },
            Outcome::ClipboardWritten => OutcomeView::ClipboardWritten,
            Outcome::Failed => OutcomeView::Failed,
        }
    }
}

/// Where a run stands.
pub enum RunView {
    /// The staged files are not known yet.
    Listing { options: RunOptionsView },
    /// The files in `staged` take part; the diffs of the first of them have
    /// been read, and at least one is still to be read.
    Diffing { options: RunOptionsView, staged: Seq<Seq<char>>, diffs: Seq<Seq<char>> },
    /// The diff text is made; the backend has not answered yet.
    Completing { options: RunOptionsView, diff: Seq<char> },
    /// The text for the clipboard is made and not yet written.
    Writing { text: Seq<char> },
    /// The clipboard is written.
    Finished,
    /// The run has failed.
    Aborted { error: RunError },
}

/// The staged files with the diffs that were read for them.
pub open spec fn files_of(staged: Seq<Seq<char>>, diffs: Seq<Seq<char>>) -> Seq<StagedFileView> {
    Seq::new(staged.len(), |i: int| StagedFileView { name: staged[i], diff: diffs[i] })
}

/// Where a run stands that knows its staged files and has read the given
/// diffs: it goes on reading while a file is left, and then has its diff
/// text.
pub open spec fn collecting(
    options: RunOptionsView,
    staged: Seq<Seq<char>>,
    diffs: Seq<Seq<char>>,
) -> RunView {
    if diffs.len() < staged.len() {
        RunView::Diffing { options, staged, diffs }
    } else {
        RunView::Completing { options, diff: diff_text(files_of(staged, diffs)) }
    }
}

/// Where a run starts: with valid arguments it is about to list the staged
/// files, with a bad argument it has failed before any step.
pub open spec fn begun(
    context: Option<Seq<char>>,
    excludes: Seq<Seq<char>>,
    model: Option<Seq<char>>,
    git: bool,
) -> RunView {
    match options_from(context, excludes, model, git) {
        Ok(options) => RunView::Listing { options },
        Err(error) => RunView::Aborted { error },
    }
}

/// The step that a run asks for.
pub open spec fn request_of(run: RunView) -> StepView {
    match run {
        RunView::Listing { .. } => StepView::RunGit { arguments: listing_arguments() },
        RunView::Diffing { staged, diffs, .. } => StepView::RunGit {
            arguments: diff_arguments(staged[diffs.len() as int]),
        },
        RunView::Completing { options, diff } => StepView::RequestCompletion {
            prompt: prompt_text(options.context, diff),
            model: options.model,
        },
        RunView::Writing { text } => StepView::WriteClipboard { text },
        RunView::Finished => StepView::Finish,
        RunView::Aborted { error } => StepView::Abort { error },
    }
}

/// Where a run stands after the work of its step ended with `outcome`.
///
/// An outcome that is not the one the step calls for counts as a failure of
/// that step. Output that is not UTF-8 is a subprocess error, an empty answer
/// a backend error. A run that is over stays as it is.
pub open spec fn after(run: RunView, outcome: OutcomeView) -> RunView {
    match run {
        RunView::Listing { options } => match outcome {
            OutcomeView::SubprocessOutput { bytes } => match decoded(bytes) {
                Some(listing) => collecting(
                    options,
                    staged_names(listing, options.excludes),
                    Seq::empty(),
                ),
                None => RunView::Aborted { error: RunError::Subprocess },
            },
            _ => RunView::Aborted { error: RunError::Subprocess },
        },
        RunView::Diffing { options, staged, diffs } => match outcome {
            OutcomeView::SubprocessOutput { bytes } => match decoded(bytes) {
                Some(diff) => collecting(options, staged, diffs.push(diff)),
                None => RunView::Aborted { error: RunError::Subprocess },
            },
            _ => RunView::Aborted { error: RunError::Subprocess },
        },
        RunView::Completing { options, diff } => match outcome {
            OutcomeView::Completion { text } => match accepted(text) {
                Ok(message) => RunView::Writing {
                    text: clipboard_text(message, options.git_format),
                },
                Err(error) => RunView::Aborted { error },
            },
            _ => RunView::Aborted { error: RunError::Backend },
        },
        RunView::Writing { text } => match outcome {
            OutcomeView::ClipboardWritten => RunView::Finished,
            _ => RunView::Aborted { error: RunError::Clipboard },
        },
        RunView::Finished => RunView::Finished,
        RunView::Aborted { error } => RunView::Aborted { error },
    }
}

enum Stage {
    Listing { options: RunOptions },
    Diffing { options: RunOptions, staged: Vec<String>, files: Vec<StagedFile> },
    Completing { options: RunOptions, diff: String },
    Writing { text: String },
    Finished,
    Aborted { error: RunError },
}

/// One run of the tool.
pub struct Run {
    stage: Stage,
}

impl View for Run {
    type V = RunView;

    closed spec fn view(&self) -> RunView {
        match self.stage {
            Stage::Listing { options } => RunView::Listing { options: options@ },
            Stage::Diffing { options, staged, files } => RunView::Diffing {
                options: options@,
                staged: staged.deep_view(),
                diffs: files.deep_view().map_values(|file: StagedFileView| file.diff),
            },
            Stage::Completing { options, diff } => RunView::Completing {
                options: options@,
                diff: diff@,
            },
            Stage::Writing { text } => RunView::Writing { text: text@ },
            Stage::Finished => RunView::Finished,
            Stage::Aborted { error } => RunView::Aborted { error },
        }
    }
}

impl Run {
    #[verifier::type_invariant]
    spec fn well_formed(&self) -> bool {
        match self.stage {
            Stage::Diffing { staged, files, .. } => {
                &&& files.len() < staged.len()
                &&& forall|i: int|
                    0 <= i < files.len() ==> (#[trigger] files[i]).name@ == staged[i]@
            },
            _ => true,
        }
    }

    /// Starts a run with the given options.
    pub fn new(options: RunOptions) -> (run: Run)
        ensures
            run@ == (RunView::Listing { options: options@ }),
    {
        Run { stage: Stage::Listing { options } }
    }

    /// Starts a run from what the command line held. A bad argument ends the
    /// run before any step is asked for.
    pub fn begin(
        context: Option<String>,
        excludes: Vec<String>,
        model: Option<String>,
        git: bool,
    ) -> (run: Run)
        ensures
            run@ == begun(context.deep_view(), excludes.deep_view(), model.deep_view(), git),
    {
        match RunOptions::from_arguments(context, excludes, model, git) {
            Ok(options) => Run::new(options),
            Err(error) => Run { stage: Stage::Aborted { error } },
        }
    }

    /// The step that the run wants done next.
    pub fn request(&self) -> (step: Step)
        ensures
            step@ == request_of(self@),
    {
        proof {
            use_type_invariant(self);
        }
        match &self.stage {
            Stage::Listing { .. } => Step::RunGit { arguments: listing_command() },
            Stage::Diffing { staged, files, .. } => Step::RunGit {
                arguments: diff_command(staged[files.len()].as_str()),
            },
            Stage::Completing { options, diff } => Step::RequestCompletion {
                prompt: render_prompt(options.context.as_str(), diff.as_str()),
                model: options.model,
            },
            Stage::Writing { text } => Step::WriteClipboard { text: text.clone() },
            Stage::Finished => Step::Finish,
            Stage::Aborted { error } => Step::Abort { error: *error },
        }
    }

    fn collect(options: RunOptions, staged: Vec<String>, files: Vec<StagedFile>) -> (run: Run)
        requires
            files.len() <= staged.len(),
            forall|i: int| 0 <= i < files.len() ==> (#[trigger] files[i]).name@ == staged[i]@,
        ensures
            run@ == collecting(
                options@,
                staged.deep_view(),
                files.deep_view().map_values(|file: StagedFileView| file.diff),
            ),
    {
        if files.len() < staged.len() {
            Run { stage: Stage::Diffing { options, staged, files } }
        } else {
            let diff = render_diff(&files);
            proof {
                let diffs = files.deep_view().map_values(|file: StagedFileView| file.diff);
                assert(files.deep_view() == files_of(staged.deep_view(), diffs));
            }
            Run { stage: Stage::Completing { options, diff } }
        }
    }

    /// Takes the outcome of the step that was asked for and moves on.
    pub fn advance(self, outcome: Outcome) -> (run: Run)
        ensures
            run@ == after(self@, outcome@),
    {
        proof {
            use_type_invariant(&self);
        }
        match self.stage {
            Stage::Listing { options } => match outcome {
                Outcome::SubprocessOutput { bytes } => match decode_text(bytes) {
                    Some(listing) => {
                        let staged = staged_files(listing.as_str(), &options.excludes);
                        let files: Vec<StagedFile> = Vec::new();
                        assert(files.deep_view().map_values(|file: StagedFileView| file.diff)
                            == Seq::<Seq<char>>::empty());
                        Run::collect(options, staged, files)
                    },
                    None => Run { stage: Stage::Aborted { error: RunError::Subprocess } },
                },
                _ => Run { stage: Stage::Aborted { error: RunError::Subprocess } },
            },
            Stage::Diffing { options, staged, files } => match outcome {
                Outcome::SubprocessOutput { bytes } => match decode_text(bytes) {
                    Some(diff) => {
                        let ghost before = files.deep_view();
                        let ghost read = diff@;
                        let mut files = files;
                        let name = staged[files.len()].clone();
                        files.push(StagedFile { name, diff });
                        assert(files.deep_view().map_values(|file: StagedFileView| file.diff)
                            == before.map_values(|file: StagedFileView| file.diff).push(read));
                        Run::collect(options, staged, files)
                    },
                    None => Run { stage: Stage::Aborted { error: RunError::Subprocess } },
                },
                _ => Run { stage: Stage::Aborted { error: RunError::Subprocess } },
            },
            Stage::Completing { options, diff } => match outcome {
                Outcome::Completion { text } => match accept_completion(text) {
                    Ok(message) => Run {
                        stage: Stage::Writing {
                            text: clipboard_payload(message.as_str(), options.git_format),
                        },
                    },
                    Err(error) => Run { stage: Stage::Aborted { error } },
                },
                _ => Run { stage: Stage::Aborted { error: RunError::Backend } },
            },
            Stage::Writing { text } => match outcome {
                Outcome::ClipboardWritten => Run { stage: Stage::Finished },
                _ => Run { stage: Stage::Aborted { error: RunError::Clipboard } },
            },
            Stage::Finished => Run { stage: Stage::Finished },
            Stage::Aborted { error } => Run { stage: Stage::Aborted { error } },
        }
    }
}

/// Where a run stands after the given outcomes, one after the other.
pub open spec fn after_all(run: RunView, outcomes: Seq<OutcomeView>) -> RunView
    decreases outcomes.len(),
{
    if outcomes.len() == 0 {
        run
    } else {
        after(after_all(run, outcomes.drop_last()), outcomes.last())
    }
}

/// A run is over when it has finished or failed.
pub open spec fn is_over(run: RunView) -> bool {
    run is Finished || run is Aborted
}

/// How far a run has come: the number of its stage, and within the reading
/// of the diffs the number of diffs read.
pub open spec fn progress(run: RunView) -> (nat, nat) {
    match run {
        RunView::Listing { .. } => (0, 0),
        RunView::Diffing { diffs, .. } => (1, diffs.len()),
        RunView::Completing { .. } => (2, 0),
        RunView::Writing { .. } => (3, 0),
        RunView::Finished => (4, 0),
        RunView::Aborted { .. } => (4, 0),
    }
}

/// The outcomes of a subprocess that printed each of the given outputs in
/// turn.
pub open spec fn outputs(printed: Seq<Seq<u8>>) -> Seq<OutcomeView> {
    printed.map_values(|bytes: Seq<u8>| OutcomeView::SubprocessOutput { bytes })
}

/// The texts that the given outputs spell.
pub open spec fn texts(printed: Seq<Seq<u8>>) -> Seq<Seq<char>> {
    printed.map_values(|bytes: Seq<u8>| decoded(bytes)->0)
}

/// A run that is over stays as it is, whatever it is told afterwards: a
/// failure is never recovered from, and nothing is done after the end.
pub proof fn lemma_over_stays_over(run: RunView, outcomes: Seq<OutcomeView>)
    requires
        is_over(run),
    ensures
        after_all(run, outcomes) == run,
    decreases outcomes.len(),
{
    if outcomes.len() > 0 {
        lemma_over_stays_over(run, outcomes.drop_last());
    }
}

/// A model name that stands for no tier ends the run at once: whatever the
/// driver reports, the run asks for nothing but to stop with an argument
/// error, so no subprocess is started and no backend is asked.
pub proof fn lemma_bad_model_stops_the_run(
    context: Option<Seq<char>>,
    excludes: Seq<Seq<char>>,
    name: Seq<char>,
    git: bool,
    outcomes: Seq<OutcomeView>,
)
    requires
        crate::options::model_named(name) is None,
    ensures
        request_of(after_all(begun(context, excludes, Some(name), git), outcomes)) == (
        StepView::Abort { error: RunError::Argument }),
{
    lemma_over_stays_over(begun(context, excludes, Some(name), git), outcomes);
}

/// Work that could not be done ends the run with the error of its stage: a
/// subprocess error while `git` is asked, a backend error while the backend
/// is asked, a clipboard error while the clipboard is written.
pub proof fn lemma_failure_ends_the_run(run: RunView)
    requires
        !is_over(run),
    ensures
        after(run, OutcomeView::Failed) == (RunView::Aborted {
            error: if run is Completing {
                RunError::Backend
            } else if run is Writing {
                RunError::Clipboard
            } else {
                RunError::Subprocess
            },
        }),
{
}

/// A run only moves forward: each outcome takes a run that is not over to a
/// later stage, or to the next diff within the reading of the diffs. So
/// nothing is asked for again, and a failed step is not tried again.
pub proof fn lemma_run_moves_forward(run: RunView, outcome: OutcomeView)
    requires
        !is_over(run),
    ensures
        progress(after(run, outcome)).0 > progress(run).0 || (progress(after(run, outcome)).0
            == progress(run).0 && progress(after(run, outcome)).1 > progress(run).1),
{
}

/// When `git` lists the files and then prints a diff for the first of the
/// files that take part, one after the other, the run stands where it has
/// read these diffs.
pub proof fn lemma_run_reads_the_diffs(
    options: RunOptionsView,
    listing: Seq<u8>,
    printed: Seq<Seq<u8>>,
)
    requires
        decoded(listing) is Some,
        printed.len() <= staged_names(decoded(listing)->0, options.excludes).len(),
        forall|i: int| 0 <= i < printed.len() ==> decoded(#[trigger] printed[i]) is Some,
    ensures
        after_all(
            RunView::Listing { options },
            seq![OutcomeView::SubprocessOutput { bytes: listing }] + outputs(printed),
        ) == collecting(
            options,
            staged_names(decoded(listing)->0, options.excludes),
            texts(printed),
        ),
    decreases printed.len(),
{
    let start = RunView::Listing { options };
    let listed = seq![OutcomeView::SubprocessOutput { bytes: listing }];
    if printed.len() == 0 {
        assert(after_all(start, listed.drop_last()) == start);
        assert(texts(printed) == Seq::<Seq<char>>::empty());
    } else {
        let before = printed.drop_last();
        lemma_run_reads_the_diffs(options, listing, before);
        assert((listed + outputs(printed)).drop_last() == listed + outputs(before));
        assert(texts(printed) == texts(before).push(decoded(printed.last())->0));
    }
}

/// The files that a run has read are the files that take part, under their
/// names and in their order.
pub proof fn lemma_files_of_names(staged: Seq<Seq<char>>, diffs: Seq<Seq<char>>)
    ensures
        names_of(files_of(staged, diffs)) == staged,
{
}

/// The diff text of a run has no header for a file that an exclude names:
/// when `git` lists the files and prints a diff for each file that takes
/// part, the run has a diff text, and no header in it bears an excluded
/// name.
pub proof fn lemma_run_leaves_out_excluded_files(
    options: RunOptionsView,
    listing: Seq<u8>,
    printed: Seq<Seq<u8>>,
    name: Seq<char>,
)
    requires
        decoded(listing) is Some,
        printed.len() == staged_names(decoded(listing)->0, options.excludes).len(),
        forall|i: int| 0 <= i < printed.len() ==> decoded(#[trigger] printed[i]) is Some,
        options.excludes.contains(name),
    ensures
        after_all(
            RunView::Listing { options },
            seq![OutcomeView::SubprocessOutput { bytes: listing }] + outputs(printed),
        ) matches RunView::Completing { diff, .. } && !headers(lines_of(diff)).contains(name),
{
    let staged = staged_names(decoded(listing)->0, options.excludes);
    lemma_run_reads_the_diffs(options, listing, printed);
    lemma_files_of_names(staged, texts(printed));
    lemma_excluded_files_have_no_header(
        decoded(listing)->0,
        options.excludes,
        files_of(staged, texts(printed)),
        name,
    );
}

/// A run in which nothing goes wrong ends with the clipboard written. When
/// `git` lists the files and prints a diff for each file that takes part,
/// the run asks the backend with the prompt made of the context and the diff
/// text of these files; when the backend gives an answer that is not empty,
/// the run asks for the clipboard text made of that answer; and when that is
/// written, the run has finished.
pub proof fn lemma_run_without_failure(
    options: RunOptionsView,
    listing: Seq<u8>,
    printed: Seq<Seq<u8>>,
    answer: Seq<char>,
)
    requires
        decoded(listing) is Some,
        printed.len() == staged_names(decoded(listing)->0, options.excludes).len(),
        forall|i: int| 0 <= i < printed.len() ==> decoded(#[trigger] printed[i]) is Some,
        answer.len() > 0,
    ensures
        ({
            let collected = seq![OutcomeView::SubprocessOutput { bytes: listing }] + outputs(
                printed,
            );
            let files = files_of(
                staged_names(decoded(listing)->0, options.excludes),
                texts(printed),
            );
            let start = RunView::Listing { options };
            &&& request_of(after_all(start, collected)) == (StepView::RequestCompletion {
                prompt: prompt_text(options.context, diff_text(files)),
                model: options.model,
            })
            &&& request_of(
                after_all(start, collected.push(OutcomeView::Completion { text: answer })),
            ) == (StepView::WriteClipboard { text: clipboard_text(answer, options.git_format) })
            &&& after_all(
                start,
                collected.push(OutcomeView::Completion { text: answer }).push(
                    OutcomeView::ClipboardWritten,
                ),
            ) == RunView::Finished
        }),
{
    let collected = seq![OutcomeView::SubprocessOutput { bytes: listing }] + outputs(printed);
    let answered = collected.push(OutcomeView::Completion { text: answer });
    let written = answered.push(OutcomeView::ClipboardWritten);
    lemma_run_reads_the_diffs(options, listing, printed);
    assert(answered.drop_last() == collected);
    assert(written.drop_last() == answered);
}

} // verus!
