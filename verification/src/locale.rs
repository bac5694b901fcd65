//! Display language and names in every language.
use vstd::prelude::*;

verus! {

#[derive(Debug, Clone, Copy, PartialEq, Eq, Hash, Default, Structural)]
pub enum Language {
    #[default]
    Ko,
    Ja,
    En,
}

/// A name in each supported language.
#[derive(Debug, Clone, PartialEq, Eq, Hash)]
pub struct LocalizedName {
    pub ko: String,
    pub ja: String,
    pub en: String,
}

impl LocalizedName {
    pub open spec fn spec_get(&self, language: Language) -> Seq<char> {
        match language {
            Language::Ko => self.ko@,
            Language::Ja => self.ja@,
            Language::En => self.en@,
        }
    }

    /// The name in `language`, the display language of the run.
    pub fn get(&self, language: Language) -> (r: &str)
        ensures
            r@ == self.spec_get(language),
    {
        match language {
            Language::Ko => self.ko.as_str(),
            Language::Ja => self.ja.as_str(),
            Language::En => self.en.as_str(),
        }
    }
}

} // verus!
