//! Collaboration projects that grow out of approved artifacts.

use vstd::prelude::*;

verus! {

/// What a contributor can bring to a project.
#[derive(Clone, Copy, Debug, PartialEq, Eq, Structural)]
pub enum ContributionType {
    Research,
    Translation,
    Design,
    Engineering,
    FieldTesting,
    Documentation,
    Mentorship,
    Equipment,
    Introductions,
    Data,
    LocalContext,
    CommunityTrust,
    CareWork,
    Funding,
    Other,
}

/// A project formed around approved artifacts.
pub struct CollaborationProject {
    pub id: String,
    pub source_artifacts: Vec<String>,
    pub title: String,
    pub problem: String,
    pub affected_communities: Vec<String>,
    pub cultural_context: Vec<String>,
    pub desired_outcome: String,
    pub required_languages: Vec<String>,
    pub contribution_needs: Vec<ContributionType>,
    pub open_questions: Vec<String>,
    pub status: String,
    pub created_at: String,
}

} // verus!
