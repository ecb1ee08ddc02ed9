//! What the user asked for on the command line.

use crate::error::RunError;
use crate::text::same_text;
use vstd::prelude::*;

verus! {

/// The capability and cost level of the completion backend.
#[derive(Clone, Copy, Debug, PartialEq, Eq, Structural)]
pub enum ModelTier {
    /// The smallest and cheapest backend.
    Fast,
    /// The middle backend.
    Standard,
    /// The most capable backend.
    Advanced,
}

/// The options of one run. They are made once and only read afterwards.
#[derive(Clone, Debug, PartialEq, Eq)]
pub struct RunOptions {
    /// Free text that tells the backend what the change is about.
    pub context: String,
    /// File names that are left out of the diff, in the order given.
    pub excludes: Vec<String>,
    /// The backend tier to ask.
    pub model: ModelTier,
    /// Whether the clipboard gets a whole `git commit` command instead of the
    /// bare message.
    pub git_format: bool,
}

/// The options of one run as plain values.
pub struct RunOptionsView {
    pub context: Seq<char>,
    pub excludes: Seq<Seq<char>>,
    pub model: ModelTier,
    pub git_format: bool,
}

impl View for RunOptions {
    type V = RunOptionsView;

    open spec fn view(&self) -> RunOptionsView {
        RunOptionsView {
            context: self.context@,
            excludes: self.excludes.deep_view(),
            model: self.model,
            git_format: self.git_format,
        }
    }
}

/// The context that stands in when the user gives none.
pub open spec fn default_context() -> Seq<char> {
    "no context"@
}

/// The tier that is asked when the user names none: the cheapest one.
pub open spec fn default_model() -> ModelTier {
    ModelTier::Fast
}

/// The tier that a name on the command line stands for. Only the three
/// names `fast`, `standard` and `advanced` stand for one.
pub open spec fn model_named(name: Seq<char>) -> Option<ModelTier> {
    if name == "fast"@ {
        Some(ModelTier::Fast)
    } else if name == "standard"@ {
        Some(ModelTier::Standard)
    } else if name == "advanced"@ {
        Some(ModelTier::Advanced)
    } else {
        None
    }
}

/// The options that the given arguments ask for: an absent context and an
/// absent model take their defaults, and a model name that stands for no tier
/// is an argument error.
pub open spec fn options_from(
    context: Option<Seq<char>>,
    excludes: Seq<Seq<char>>,
    model: Option<Seq<char>>,
    git: bool,
) -> Result<RunOptionsView, RunError> {
    let tier = match model {
        Some(name) => model_named(name),
        None => Some(default_model()),
    };
    match tier {
        Some(model) => Ok(
            RunOptionsView {
                context: match context {
                    Some(text) => text,
                    None => default_context(),
                },
                excludes,
                model,
                git_format: git,
            },
        ),
        None => Err(RunError::Argument),
    }
}

/// Reads the value of the model argument.
pub fn parse_model_argument(model_arg: &str) -> (parsed: Result<ModelTier, RunError>)
    ensures
        parsed == match model_named(model_arg@) {
            Some(tier) => Ok::<ModelTier, RunError>(tier),
            None => Err(RunError::Argument),
        },
{
    if same_text(model_arg, "fast") {
        Ok(ModelTier::Fast)
    } else if same_text(model_arg, "standard") {
        Ok(ModelTier::Standard)
    } else if same_text(model_arg, "advanced") {
        Ok(ModelTier::Advanced)
    } else {
        Err(RunError::Argument)
    }
}

impl RunOptions {
    /// Makes the options of a run from what the command line held: the
    /// context and the model name if they were given, the excluded names, and
    /// whether the git flag was set.
    pub fn from_arguments(
        context: Option<String>,
        excludes: Vec<String>,
        model: Option<String>,
        git: bool,
    ) -> (parsed: Result<RunOptions, RunError>)
        ensures
            match options_from(context.deep_view(), excludes.deep_view(), model.deep_view(), git) {
                Ok(asked) => parsed matches Ok(options) && options@ == asked,
                Err(error) => parsed matches Err(found) && found == error,
            },
    {
        let tier = match model {
            Some(name) => parse_model_argument(name.as_str()),
            None => Ok(ModelTier::Fast),
        };
        match tier {
            Ok(model) => {
                let context = match context {
                    Some(text) => text,
                    None => "no context".to_owned(),
                };
                Ok(RunOptions { context, excludes, model, git_format: git })
            },
            Err(error) => Err(error),
        }
    }
}

} // verus!
