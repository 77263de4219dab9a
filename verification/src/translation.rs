use vstd::prelude::*;

use crate::text::{chars_eq, chars_to_ascii_lowercase, lower_seq, str_chars};

verus! {

/// A language a query can ask to have text translated into.
#[derive(Clone, Copy, Debug, PartialEq, Eq, Structural)]
pub enum Language {
    Arabic,
    Chinese,
    Czech,
    Danish,
    Dutch,
    English,
    Finnish,
    French,
    German,
    Greek,
    Italian,
    Japanese,
    Korean,
    Polish,
    Portuguese,
    Russian,
    Spanish,
    Swedish,
    Turkish,
    Ukrainian,
}

/// The language whose English name is `l` (already in lower case).
pub open spec fn language_of_lower(l: Seq<char>) -> Option<Language> {
    if l == "arabic"@ {
        Some(Language::Arabic)
    } else if l == "chinese"@ {
        Some(Language::Chinese)
    } else if l == "czech"@ {
        Some(Language::Czech)
    } else if l == "danish"@ {
        Some(Language::Danish)
    } else if l == "dutch"@ {
        Some(Language::Dutch)
    } else if l == "english"@ {
        Some(Language::English)
    } else if l == "finnish"@ {
        Some(Language::Finnish)
    } else if l == "french"@ {
        Some(Language::French)
    } else if l == "german"@ {
        Some(Language::German)
    } else if l == "greek"@ {
        Some(Language::Greek)
    } else if l == "italian"@ {
        Some(Language::Italian)
    } else if l == "japanese"@ {
        Some(Language::Japanese)
    } else if l == "korean"@ {
        Some(Language::Korean)
    } else if l == "polish"@ {
        Some(Language::Polish)
    } else if l == "portuguese"@ {
        Some(Language::Portuguese)
    } else if l == "russian"@ {
        Some(Language::Russian)
    } else if l == "spanish"@ {
        Some(Language::Spanish)
    } else if l == "swedish"@ {
        Some(Language::Swedish)
    } else if l == "turkish"@ {
        Some(Language::Turkish)
    } else if l == "ukrainian"@ {
        Some(Language::Ukrainian)
    } else {
        None
    }
}

/// The language named `s`: its English name in any ASCII case.
pub open spec fn language_named(s: Seq<char>) -> Option<Language> {
    language_of_lower(lower_seq(s))
}

fn is_name(l: &Vec<char>, name: &str) -> (r: bool)
    ensures
        r == (l@ == name@),
{
    chars_eq(l, &str_chars(name))
}

impl Language {
    /// The language named `s` (its English name, in any ASCII case), or
    /// `None` for a name it does not know.
    pub fn from_str(s: &str) -> (r: Option<Language>)
        ensures
            r == language_named(s@),
    {
        let l = chars_to_ascii_lowercase(&str_chars(s));
        if is_name(&l, "arabic") {
            Some(Language::Arabic)
        } else if is_name(&l, "chinese") {
            Some(Language::Chinese)
        } else if is_name(&l, "czech") {
            Some(Language::Czech)
        } else if is_name(&l, "danish") {
            Some(Language::Danish)
        } else if is_name(&l, "dutch") {
            Some(Language::Dutch)
        } else if is_name(&l, "english") {
            Some(Language::English)
        } else if is_name(&l, "finnish") {
            Some(Language::Finnish)
        } else if is_name(&l, "french") {
            Some(Language::French)
        } else if is_name(&l, "german") {
            Some(Language::German)
        } else if is_name(&l, "greek") {
            Some(Language::Greek)
        } else if is_name(&l, "italian") {
            Some(Language::Italian)
        } else if is_name(&l, "japanese") {
            Some(Language::Japanese)
        } else if is_name(&l, "korean") {
            Some(Language::Korean)
        } else if is_name(&l, "polish") {
            Some(Language::Polish)
        } else if is_name(&l, "portuguese") {
            Some(Language::Portuguese)
        } else if is_name(&l, "russian") {
            Some(Language::Russian)
        } else if is_name(&l, "spanish") {
            Some(Language::Spanish)
        } else if is_name(&l, "swedish") {
            Some(Language::Swedish)
        } else if is_name(&l, "turkish") {
            Some(Language::Turkish)
        } else if is_name(&l, "ukrainian") {
            Some(Language::Ukrainian)
        } else {
            None
        }
    }
}

} // verus!
