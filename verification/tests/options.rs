use rcommit::error::RunError;
use rcommit::options::{parse_model_argument, ModelTier, RunOptions};

#[test]
fn model_names_stand_for_their_tiers() {
    assert_eq!(parse_model_argument("fast"), Ok(ModelTier::Fast));
    assert_eq!(parse_model_argument("standard"), Ok(ModelTier::Standard));
    assert_eq!(parse_model_argument("advanced"), Ok(ModelTier::Advanced));
}

#[test]
fn other_model_names_are_argument_errors() {
    for name in ["bogus", "", "Fast", "fast ", " fast", "fas", "faster", "gpt4"] {
        assert_eq!(parse_model_argument(name), Err(RunError::Argument));
    }
}

#[test]
fn absent_arguments_take_their_defaults() {
    let options = RunOptions::from_arguments(None, Vec::new(), None, false).unwrap();
    assert_eq!(options.context, "no context");
    assert_eq!(options.excludes, Vec::<String>::new());
    assert_eq!(options.model, ModelTier::Fast);
    assert!(!options.git_format);
}

#[test]
fn given_arguments_are_kept() {
    let options = RunOptions::from_arguments(
        Some("fixes the parser".to_string()),
        vec!["Cargo.lock".to_string(), "b.txt".to_string()],
        Some("advanced".to_string()),
        true,
    );
    assert_eq!(
        options,
        Ok(RunOptions {
            context: "fixes the parser".to_string(),
            excludes: vec!["Cargo.lock".to_string(), "b.txt".to_string()],
            model: ModelTier::Advanced,
            git_format: true,
        })
    );
}

#[test]
fn an_empty_context_is_kept_as_given() {
    let options = RunOptions::from_arguments(Some(String::new()), Vec::new(), None, false);
    assert_eq!(options.unwrap().context, "");
}

#[test]
fn a_bad_model_name_gives_no_options() {
    let options = RunOptions::from_arguments(
        Some("context".to_string()),
        vec!["b.txt".to_string()],
        Some("bogus".to_string()),
        true,
    );
    assert_eq!(options, Err(RunError::Argument));
}
