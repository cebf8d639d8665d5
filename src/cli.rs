use vstd::prelude::*;

verus! {

/// What to do with the feedback documents.
#[derive(Clone, Copy, Debug, PartialEq, Eq, Structural)]
pub enum FeedbackAction {
    /// Render one document per project from a template.
    Create,
    /// Open one issue per project from its document.
    Publish,
}

/// The command to run.
pub enum SubCommand {
    /// Discover the forks of a root project and write the manifest.
    Init {
        project_id: u32,
        exclude_members: Vec<String>,
        projects_directory: String,
        templates_directory: String,
        feedbacks_directory: String,
    },
    /// Clone every recorded repository.
    Clone,
    /// Pull every cloned repository.
    Pull,
    /// Check out a branch in every cloned repository.
    Checkout { branch: String },
    /// Create or publish the feedback documents of a named template.
    Feedback { action: FeedbackAction, name: String },
}

/// The credential, the API base URL and the command.
pub struct Opts {
    pub gitlab_token: String,
    pub gitlab_api_url: String,
    pub subcmd: SubCommand,
}

} // verus!
