use rcommit::error::RunError;
use rcommit::options::{ModelTier, RunOptions};
use rcommit::run::{Outcome, Run, Step};

fn output(text: &str) -> Outcome {
    Outcome::SubprocessOutput { bytes: text.as_bytes().to_vec() }
}

fn completion(text: &str) -> Outcome {
    Outcome::Completion { text: text.to_string() }
}

fn options(excludes: &[&str], model: ModelTier, git_format: bool) -> RunOptions {
    RunOptions {
        context: "ctx".to_string(),
        excludes: excludes.iter().map(|name| name.to_string()).collect(),
        model,
        git_format,
    }
}

fn list_staged_files() -> Step {
    Step::RunGit {
        arguments: vec![
            "diff".to_string(),
            "--cached".to_string(),
            "--name-only".to_string(),
            "--diff-filter=ACM".to_string(),
        ],
    }
}

fn read_staged_diff(path: &str) -> Step {
    Step::RunGit { arguments: vec!["diff".to_string(), "--cached".to_string(), path.to_string()] }
}

fn abort(error: RunError) -> Step {
    Step::Abort { error }
}

fn every_outcome() -> Vec<Outcome> {
    vec![
        output("a.txt\n"),
        completion("feat: add a"),
        Outcome::ClipboardWritten,
        Outcome::Failed,
    ]
}

#[test]
fn a_bad_model_stops_the_run_before_any_step() {
    let mut run = Run::begin(None, Vec::new(), Some("bogus".to_string()), false);
    assert_eq!(run.request(), abort(RunError::Argument));
    for outcome in every_outcome() {
        run = run.advance(outcome);
        assert_eq!(run.request(), abort(RunError::Argument));
    }
}

#[test]
fn a_run_with_good_arguments_starts_by_listing() {
    let run = Run::begin(None, Vec::new(), Some("standard".to_string()), false);
    assert_eq!(run.request(), list_staged_files());
    let run = Run::begin(None, Vec::new(), None, true);
    assert_eq!(run.request(), list_staged_files());
}

#[test]
fn staged_a_and_b_without_b_ends_on_the_clipboard() {
    let run = Run::begin(None, vec!["b.txt".to_string()], None, true);
    assert_eq!(run.request(), list_staged_files());

    let run = run.advance(output("a.txt\nb.txt\n"));
    assert_eq!(run.request(), read_staged_diff("a.txt"));

    let run = run.advance(output("diff --git a/a.txt b/a.txt\n+a\n"));
    let (prompt, model) = match run.request() {
        Step::RequestCompletion { prompt, model } => (prompt, model),
        other => panic!("the run asks for {:?}", other),
    };
    assert_eq!(model, ModelTier::Fast);
    assert!(prompt.contains("\n---------------------------\n name:a.txt\n"));
    assert!(!prompt.contains("b.txt"));
    assert_eq!(
        prompt,
        "Create a conventional commit message for the following changes. Context: no context. File changes: \n---------------------------\n name:a.txt\n+diff --git a/a.txt b/a.txt\n++a"
    );

    let run = run.advance(completion("feat: add a"));
    assert_eq!(
        run.request(),
        Step::WriteClipboard { text: "git commit -m \"feat: add a\"".to_string() }
    );

    let run = run.advance(Outcome::ClipboardWritten);
    assert_eq!(run.request(), Step::Finish);
}

#[test]
fn without_the_git_flag_the_clipboard_gets_the_bare_message() {
    let run = Run::new(options(&[], ModelTier::Advanced, false));
    let run = run.advance(output("a.txt\n")).advance(output("+a\n"));
    match run.request() {
        Step::RequestCompletion { model, .. } => assert_eq!(model, ModelTier::Advanced),
        other => panic!("the run asks for {:?}", other),
    }
    let run = run.advance(completion("fix: handle \"edge\" case"));
    assert_eq!(
        run.request(),
        Step::WriteClipboard { text: "fix: handle \"edge\" case".to_string() }
    );
}

#[test]
fn the_diffs_are_read_in_the_listed_order() {
    let run = Run::new(options(&["skip.me"], ModelTier::Standard, false));
    let run = run.advance(output("z.txt\nskip.me\na.txt\nm.txt\n"));
    assert_eq!(run.request(), read_staged_diff("z.txt"));
    let run = run.advance(output("+z\n"));
    assert_eq!(run.request(), read_staged_diff("a.txt"));
    let run = run.advance(output(""));
    assert_eq!(run.request(), read_staged_diff("m.txt"));
    let run = run.advance(output("-m\n+M\n"));
    assert_eq!(
        run.request(),
        Step::RequestCompletion {
            prompt: "Create a conventional commit message for the following changes. Context: ctx. File changes: \
                     \n---------------------------\n name:z.txt\n++z\
                     \n\n---------------------------\n name:a.txt\
                     \n\n---------------------------\n name:m.txt\n+-m\n++M"
                .to_string(),
            model: ModelTier::Standard,
        }
    );
}

#[test]
fn with_nothing_staged_the_backend_is_still_asked() {
    let run = Run::new(options(&[], ModelTier::Fast, false)).advance(output(""));
    assert_eq!(
        run.request(),
        Step::RequestCompletion {
            prompt: "Create a conventional commit message for the following changes. Context: ctx. File changes: "
                .to_string(),
            model: ModelTier::Fast,
        }
    );
}

#[test]
fn with_everything_excluded_no_diff_is_read() {
    let run = Run::new(options(&["a.txt", "b.txt"], ModelTier::Fast, false));
    let run = run.advance(output("a.txt\nb.txt\n"));
    match run.request() {
        Step::RequestCompletion { prompt, .. } => assert!(prompt.ends_with("File changes: ")),
        other => panic!("the run asks for {:?}", other),
    }
}

#[test]
fn a_failed_listing_is_a_subprocess_error() {
    let run = Run::new(options(&[], ModelTier::Fast, false)).advance(Outcome::Failed);
    assert_eq!(run.request(), abort(RunError::Subprocess));
}

#[test]
fn a_listing_that_is_not_utf8_is_a_subprocess_error() {
    let run = Run::new(options(&[], ModelTier::Fast, false));
    let run = run.advance(Outcome::SubprocessOutput { bytes: vec![b'a', 0xff, b'\n'] });
    assert_eq!(run.request(), abort(RunError::Subprocess));
}

#[test]
fn a_failed_diff_is_a_subprocess_error_and_nothing_is_kept() {
    let run = Run::new(options(&[], ModelTier::Fast, false));
    let run = run.advance(output("a.txt\nb.txt\n")).advance(output("+a\n"));
    assert_eq!(run.request(), read_staged_diff("b.txt"));
    let run = run.advance(Outcome::Failed);
    assert_eq!(run.request(), abort(RunError::Subprocess));
    let run = run.advance(output("+b\n"));
    assert_eq!(run.request(), abort(RunError::Subprocess));
}

#[test]
fn a_diff_that_is_not_utf8_is_a_subprocess_error() {
    let run = Run::new(options(&[], ModelTier::Fast, false)).advance(output("a.bin\n"));
    let run = run.advance(Outcome::SubprocessOutput { bytes: vec![0xc3, 0x28] });
    assert_eq!(run.request(), abort(RunError::Subprocess));
}

#[test]
fn a_failed_backend_is_a_backend_error() {
    let run = Run::new(options(&[], ModelTier::Fast, true)).advance(output(""));
    assert_eq!(run.advance(Outcome::Failed).request(), abort(RunError::Backend));
}

#[test]
fn an_empty_answer_is_a_backend_error() {
    let run = Run::new(options(&[], ModelTier::Fast, true)).advance(output(""));
    assert_eq!(run.advance(completion("")).request(), abort(RunError::Backend));
}

#[test]
fn a_failed_clipboard_is_a_clipboard_error() {
    let run = Run::new(options(&[], ModelTier::Fast, true));
    let run = run.advance(output("")).advance(completion("feat: x"));
    assert_eq!(run.request(), Step::WriteClipboard { text: "git commit -m \"feat: x\"".to_string() });
    assert_eq!(run.advance(Outcome::Failed).request(), abort(RunError::Clipboard));
}

#[test]
fn an_outcome_of_another_step_fails_the_step_at_hand() {
    let listing = Run::new(options(&[], ModelTier::Fast, false));
    assert_eq!(listing.advance(completion("x")).request(), abort(RunError::Subprocess));

    let completing = Run::new(options(&[], ModelTier::Fast, false)).advance(output(""));
    assert_eq!(completing.advance(output("x")).request(), abort(RunError::Backend));

    let writing =
        Run::new(options(&[], ModelTier::Fast, false)).advance(output("")).advance(completion("x"));
    assert_eq!(writing.advance(completion("y")).request(), abort(RunError::Clipboard));
}

#[test]
fn a_finished_run_stays_finished() {
    let mut run = Run::new(options(&[], ModelTier::Fast, false))
        .advance(output(""))
        .advance(completion("x"))
        .advance(Outcome::ClipboardWritten);
    assert_eq!(run.request(), Step::Finish);
    for outcome in every_outcome() {
        run = run.advance(outcome);
        assert_eq!(run.request(), Step::Finish);
    }
}

#[test]
fn asking_twice_gives_the_same_step() {
    let run = Run::new(options(&[], ModelTier::Fast, false)).advance(output("a.txt\n"));
    assert_eq!(run.request(), run.request());
}
