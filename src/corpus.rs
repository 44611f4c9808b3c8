//! Vocabulary records, as read from an already-loaded corpus.
use vstd::prelude::*;
use crate::text::same_text;

verus! {

/// How commonly a word is used; a closed set of categories.
#[derive(Clone, Copy, Debug, PartialEq, Eq, Structural)]
pub enum UsageCategory {
    Core,
    Common,
    Uncommon,
    Obscure,
    Sandbox,
}

/// An integrity fault of a corpus record, fatal to the session.
#[derive(Clone, Copy, Debug, PartialEq, Eq, Structural)]
pub enum CorpusError {
    /// The record has no usage category.
    MissingCategory,
    /// The record's usage category is not one of the known names.
    UnknownCategory,
    /// The record has no deprecation flag.
    MissingDeprecated,
}

/// One vocabulary entry.
#[derive(Debug)]
pub struct CorpusRecord {
    pub id: String,
    pub usage_category: UsageCategory,
    pub deprecated: bool,
    /// The text put into the phrase; a record without one is never selected.
    pub word: Option<String>,
    pub definition: Option<String>,
    /// Example sentences, keyed by language tag.
    pub examples: Vec<(String, String)>,
}

/// The category that a corpus spells as `name`, if any.
pub open spec fn category_named(name: Seq<char>) -> Option<UsageCategory> {
    if name == "core"@ {
        Some(UsageCategory::Core)
    } else if name == "common"@ {
        Some(UsageCategory::Common)
    } else if name == "uncommon"@ {
        Some(UsageCategory::Uncommon)
    } else if name == "obscure"@ {
        Some(UsageCategory::Obscure)
    } else if name == "sandbox"@ {
        Some(UsageCategory::Sandbox)
    } else {
        None
    }
}

/// Reads a category name.
pub fn parse_category(name: &str) -> (r: Option<UsageCategory>)
    ensures
        r == category_named(name@),
{
    if same_text(name, "core") {
        Some(UsageCategory::Core)
    } else if same_text(name, "common") {
        Some(UsageCategory::Common)
    } else if same_text(name, "uncommon") {
        Some(UsageCategory::Uncommon)
    } else if same_text(name, "obscure") {
        Some(UsageCategory::Obscure)
    } else if same_text(name, "sandbox") {
        Some(UsageCategory::Sandbox)
    } else {
        None
    }
}

impl CorpusRecord {
    /// Builds a record from the fields found in the corpus, rejecting a record
    /// whose category or deprecation flag is missing, or whose category is
    /// unknown.
    pub fn from_fields(
        id: String,
        category: Option<&str>,
        deprecated: Option<bool>,
        word: Option<String>,
        definition: Option<String>,
        examples: Vec<(String, String)>,
    ) -> (r: Result<CorpusRecord, CorpusError>)
        ensures
            category is None ==> r == Err::<CorpusRecord, CorpusError>(CorpusError::MissingCategory),
            category is Some && category_named(category->0@) is None ==> r == Err::<
                CorpusRecord,
                CorpusError,
            >(CorpusError::UnknownCategory),
            category is Some && category_named(category->0@) is Some && deprecated is None ==> r
                == Err::<CorpusRecord, CorpusError>(CorpusError::MissingDeprecated),
            category is Some && category_named(category->0@) is Some && deprecated is Some ==> r
                == Ok::<CorpusRecord, CorpusError>(
                CorpusRecord {
                    id,
                    usage_category: category_named(category->0@)->0,
                    deprecated: deprecated->0,
                    word,
                    definition,
                    examples,
                },
            ),
    {
        let usage_category = match category {
            None => return Err(CorpusError::MissingCategory),
            Some(name) => match parse_category(name) {
                None => return Err(CorpusError::UnknownCategory),
                Some(c) => c,
            },
        };
        let deprecated = match deprecated {
            None => return Err(CorpusError::MissingDeprecated),
            Some(d) => d,
        };
        Ok(CorpusRecord { id, usage_category, deprecated, word, definition, examples })
    }
}

} // verus!
