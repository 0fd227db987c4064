//! Blog posts, comments and their filters.

use vstd::prelude::*;

verus! {

/// Publication state of a blog post.
#[derive(Clone, Debug, Copy, Eq, PartialEq, Structural)]
pub enum BlogStatus {
    Draft,
    Published,
    Archived,
}

/// The fields of a blog post that an edit may change; absent fields stay as they are.
#[derive(Clone, Debug)]
pub struct BlogPostUpdate {
    pub title: Option<String>,
    pub short_description: Option<String>,
    pub status: Option<BlogStatus>,
    pub thumbnail: Option<String>,
    pub content: Option<String>,
    pub category: Option<BlogCategory>,
    pub link: Option<String>,
    pub published_date: Option<String>,
    pub is_featured: Option<bool>,
    pub is_premium: Option<bool>,
}

/// Blog categories: "WebDevelopment", "MobileDevelopment", "ArtificialIntelligence",
/// "Technology", "Lifestyle".
#[derive(Clone, Debug, Copy, Eq, PartialEq, Structural)]
pub enum BlogCategory {
    WebDevelopment,
    MobileDevelopment,
    ArtificialIntelligence,
    Technology,
    Lifestyle,
}

/// The name of each category.
pub open spec fn category_name(category: BlogCategory) -> Seq<char> {
    match category {
        BlogCategory::WebDevelopment => "WebDevelopment"@,
        BlogCategory::MobileDevelopment => "MobileDevelopment"@,
        BlogCategory::ArtificialIntelligence => "ArtificialIntelligence"@,
        BlogCategory::Technology => "Technology"@,
        BlogCategory::Lifestyle => "Lifestyle"@,
    }
}

impl BlogCategory {
    pub fn to_string(&self) -> (res: String)
        ensures
            res@ == category_name(*self),
    {
        match self {
            BlogCategory::WebDevelopment => String::from_str("WebDevelopment"),
            BlogCategory::MobileDevelopment => String::from_str("MobileDevelopment"),
            BlogCategory::ArtificialIntelligence => String::from_str("ArtificialIntelligence"),
            BlogCategory::Technology => String::from_str("Technology"),
            BlogCategory::Lifestyle => String::from_str("Lifestyle"),
        }
    }
}

/// Distinct categories have distinct names.
pub proof fn lemma_category_names_distinct(a: BlogCategory, b: BlogCategory)
    ensures
        category_name(a) == category_name(b) ==> a == b,
{
    reveal_strlit("WebDevelopment");
    reveal_strlit("MobileDevelopment");
    reveal_strlit("ArtificialIntelligence");
    reveal_strlit("Technology");
    reveal_strlit("Lifestyle");
    if a != b {
        let na = category_name(a);
        let nb = category_name(b);
        if na.len() == nb.len() {
            assert(na[0] != nb[0] || na[1] != nb[1]);
        }
    }
}

/// The text of a new comment.
#[derive(Clone, Debug)]
pub struct BlogCommentInput {
    pub content: String,
}

/// Filters for listing blog posts.
#[derive(Clone, Debug)]
pub struct FetchBlogPostsQueryFilters {
    pub status: Option<BlogStatus>,
    pub is_featured: Option<bool>,
    pub sort_configs: Option<SortConfigs>,
}

/// What blog posts may be sorted by.
#[derive(Clone, Debug, Copy, Eq, PartialEq, Structural)]
pub enum BlogPostsFilterSortBy {
    DateOfCreation,
    Reads,
}

/// Sort direction.
#[derive(Clone, Debug, Copy, Eq, PartialEq, Structural)]
pub enum SortOrder {
    Asc,
    Desc,
}

/// A sort key and direction.
#[derive(Clone, Debug)]
pub struct SortConfigs {
    pub sort_by: BlogPostsFilterSortBy,
    pub sort_order: SortOrder,
}

} // verus!
