//! Portfolio, resume, skills and services of the site owner.

use vstd::prelude::*;

verus! {

/// Portfolio categories.
#[derive(Clone, Debug, Copy, Eq, PartialEq, Structural)]
pub enum UserPortfolioCategory {
    JavaScript,
    Rust,
    Database,
    DevOps,
    Cloud,
    Mobile,
}

/// Resume sections.
#[derive(Clone, Debug, Copy, Eq, PartialEq, Structural)]
pub enum UserResumeSection {
    Education,
    Experience,
    Achievements,
    Projects,
    Certifications,
    Volunteer,
    Publications,
    Languages,
    Interests,
    References,
}

/// Kinds of skill.
#[derive(Clone, Debug, Copy, Eq, PartialEq, Structural)]
pub enum UserSkillType {
    Technical,
    Soft,
}

/// Skill levels.
#[derive(Clone, Debug, Copy, Eq, PartialEq, Structural)]
pub enum UserSkillLevel {
    Beginner,
    Intermediate,
    Advanced,
    Expert,
}

/// A new service offered.
#[derive(Clone, Debug)]
pub struct UserServiceInput {
    pub title: String,
    pub description: String,
    pub thumbnail: String,
}

} // verus!
