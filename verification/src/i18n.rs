//! The choice of the language that the browser speaks.

use vstd::prelude::*;
use vstd::string::*;

verus! {

/// `text` in lower case, by Unicode's case mapping.
pub uninterp spec fn lowercased(text: Seq<char>) -> Seq<char>;

/// `str::to_lowercase` gives the text in lower case.
pub assume_specification[ str::to_lowercase ](text: &str) -> (lower: String)
    ensures
        lower@ == lowercased(text@),
;

/// Whether `text` begins with the characters of `prefix`.
pub fn has_prefix(text: &str, prefix: &str) -> (begins: bool)
    ensures
        begins == prefix@.is_prefix_of(text@),
{
    let mut wanted: Vec<char> = Vec::new();
    proof {
        assert(prefix@.take(0) =~= Seq::<char>::empty());
    }
    for c in iter: prefix.chars()
        invariant
            iter.seq() == prefix@,
            wanted@ == prefix@.take(iter.index()),
    {
        proof {
            assert(prefix@.take(iter.index() + 1) =~= prefix@.take(iter.index()).push(c));
        }
        wanted.push(c);
    }
    proof {
        assert(prefix@.take(prefix@.len() as int) =~= prefix@);
    }
    let count = wanted.len();
    if count == 0 {
        assert(prefix@ =~= text@.subrange(0, 0));
        return true;
    }
    let mut at: usize = 0;
    for c in iter: text.chars()
        invariant
            iter.seq() == text@,
            wanted@ == prefix@,
            count == wanted@.len(),
            at == iter.index(),
            at < count,
            forall|j: int| 0 <= j < at ==> text@[j] == wanted@[j],
    {
        if c != wanted[at] {
            proof {
                if prefix@.is_prefix_of(text@) {
                    assert(text@.subrange(0, prefix@.len() as int)[at as int] == prefix@[at as int]);
                }
            }
            return false;
        }
        at += 1;
        if at == count {
            assert(prefix@ =~= text@.subrange(0, prefix@.len() as int));
            return true;
        }
    }
    false
}

/// The language that a locale name in lower case stands for, by the two
/// letters that it begins with: Korean, Japanese (also under `jp`) or
/// English.
pub open spec fn language_of_lower(lower: Seq<char>) -> Option<Seq<char>> {
    if "ko"@.is_prefix_of(lower) {
        Some("ko"@)
    } else if "ja"@.is_prefix_of(lower) || "jp"@.is_prefix_of(lower) {
        Some("ja"@)
    } else if "en"@.is_prefix_of(lower) {
        Some("en"@)
    } else {
        None
    }
}

/// The language that a locale name stands for: that of the name in lower
/// case.
pub open spec fn language_of(locale: Seq<char>) -> Option<Seq<char>> {
    language_of_lower(lowercased(locale))
}

/// The language that the browser speaks: that of the preferred locale,
/// or of the locale of the environment where none is preferred, and English
/// where that locale stands for no language the browser speaks.
pub open spec fn language_for(preferred: Option<Seq<char>>, environment: Option<Seq<char>>) -> Seq<
    char,
> {
    let candidate = match preferred {
        Some(locale) => Some(locale),
        None => environment,
    };
    match candidate {
        Some(locale) => match language_of(locale) {
            Some(language) => language,
            None => "en"@,
        },
        None => "en"@,
    }
}

/// The language that a locale name in lower case stands for, if the
/// browser speaks it.
pub fn language_of_lowercase(lower: &str) -> (language: Option<String>)
    ensures
        match language {
            Some(name) => language_of_lower(lower@) == Some(name@),
            None => language_of_lower(lower@) is None,
        },
{
    if has_prefix(lower, "ko") {
        Some(String::from_str("ko"))
    } else if has_prefix(lower, "ja") || has_prefix(lower, "jp") {
        Some(String::from_str("ja"))
    } else if has_prefix(lower, "en") {
        Some(String::from_str("en"))
    } else {
        None
    }
}

/// The language that a locale name stands for, if the browser speaks it.
pub fn normalize_locale(locale: String) -> (language: Option<String>)
    ensures
        match language {
            Some(name) => language_of(locale@) == Some(name@),
            None => language_of(locale@) is None,
        },
{
    let lower = locale.as_str().to_lowercase();
    language_of_lowercase(lower.as_str())
}

/// The language that the browser is to speak, given the locale that was
/// asked for and the locale of the environment.
pub fn choose_language(preferred: Option<String>, environment: Option<String>) -> (language:
    String)
    ensures
        language@ == language_for(
            match preferred {
                Some(locale) => Some(locale@),
                None => None,
            },
            match environment {
                Some(locale) => Some(locale@),
                None => None,
            },
        ),
{
    let candidate = match preferred {
        Some(locale) => Some(locale),
        None => environment,
    };
    let chosen = match candidate {
        Some(locale) => normalize_locale(locale),
        None => None,
    };
    match chosen {
        Some(language) => language,
        None => String::from_str("en"),
    }
}

} // verus!
