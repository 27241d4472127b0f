use vstd::prelude::*;

verus! {

use crate::strutil::chars_of;
use crate::strutil::find_first_from;
use crate::strutil::first_pos;
use crate::strutil::has_char;
use crate::strutil::lemma_first_pos;
use crate::strutil::str_eq;
use crate::strutil::string_of_range;
use crate::strutil::string_from_chars;

/// The texts one language gives the interactive surface; a field left empty
/// falls back to the English text.
#[derive(Clone, Debug, PartialEq, Eq)]
pub struct Locale {
    pub settings: Option<String>,
    pub search: Option<String>,
    pub theme: Option<String>,
    pub window_size: Option<String>,
    pub music_path: Option<String>,
    pub language: Option<String>,
}

/// The display name of a language denominator; unknown denominators show as
/// English.
pub open spec fn locale_name_spec(d: Seq<char>) -> Seq<char> {
    if d == "en"@ {
        "English"@
    } else if d == "it"@ {
        "Italiano"@
    } else if d == "de"@ {
        "Deutsch"@
    } else if d == "fr"@ {
        "Francais"@
    } else if d == "es"@ {
        "Espanol"@
    } else {
        "English"@
    }
}

/// The denominator of a language display name; unknown names fall back to
/// English's.
pub open spec fn locale_denominator_spec(name: Seq<char>) -> Seq<char> {
    if name == "English"@ {
        "en"@
    } else if name == "Italiano"@ {
        "it"@
    } else if name == "Deutsch"@ {
        "de"@
    } else if name == "Francais"@ {
        "fr"@
    } else if name == "Espanol"@ {
        "es"@
    } else {
        "en"@
    }
}

pub fn get_locale_name(denominator: Option<&str>) -> (r: &'static str)
    ensures
        denominator matches Some(d) ==> r@ == locale_name_spec(d@),
        denominator is None ==> r@ == "English"@,
{
    match denominator {
        None => "English",
        Some(d) => {
            if str_eq(d, "en") {
                "English"
            } else if str_eq(d, "it") {
                "Italiano"
            } else if str_eq(d, "de") {
                "Deutsch"
            } else if str_eq(d, "fr") {
                "Francais"
            } else if str_eq(d, "es") {
                "Espanol"
            } else {
                "English"
            }
        },
    }
}

pub fn get_locale_denominator(name: Option<&str>) -> (r: &'static str)
    ensures
        name matches Some(n) ==> r@ == locale_denominator_spec(n@),
        name is None ==> r@ == "en"@,
{
    match name {
        None => "en",
        Some(n) => {
            if str_eq(n, "English") {
                "en"
            } else if str_eq(n, "Italiano") {
                "it"
            } else if str_eq(n, "Deutsch") {
                "de"
            } else if str_eq(n, "Francais") {
                "fr"
            } else if str_eq(n, "Espanol") {
                "es"
            } else {
                "en"
            }
        },
    }
}

/// The language part of a BCP 47 tag: everything before the first `-`.
pub open spec fn language_part(s: Seq<char>) -> Seq<char> {
    if has_char(s, '-') {
        s.take(first_pos(s, '-'))
    } else {
        s
    }
}

/// The denominator to localize by: the explicit choice wins; otherwise the
/// system locale's language part; otherwise English.
pub fn denominator_from(explicit: Option<String>, system: Option<String>) -> (r: String)
    ensures
        explicit matches Some(e) ==> r@ == e@,
        explicit is None ==> r@ == (match system {
            Some(s) => language_part(s@),
            None => "en"@,
        }),
{
    match explicit {
        Some(e) => e,
        None => match system {
            Some(s) => {
                let v = chars_of(s.as_str());
                match find_first_from(&v, '-', 0) {
                    Some(j) => {
                        proof {
                            lemma_first_pos(v@, '-');
                            assert(first_pos(v@, '-') == j as int);
                            assert(v@.subrange(0, j as int) =~= v@.take(j as int));
                        }
                        string_of_range(&v, 0, j)
                    },
                    None => {
                        proof {
                            lemma_first_pos(v@, '-');
                        }
                        string_from_chars(&v)
                    },
                }
            },
            None => String::from_str("en"),
        },
    }
}

/// Relies on sys_locale::get_locale: the system's preferred locale, a BCP 47
/// tag, absent when the system names none. The result depends on the
/// environment, so nothing more is stated of it.
#[verifier::external_body]
fn system_locale() -> (r: Option<String>) {
    sys_locale::get_locale()
}

/// The denominator to localize by when the caller may leave the choice to
/// the system: an explicit choice is taken as it stands, whatever the
/// system would have said.
pub fn resolve_denominator(explicit: Option<String>) -> (r: String)
    ensures
        explicit matches Some(e) ==> r@ == e@,
{
    let system = system_locale();
    denominator_from(explicit, system)
}

fn pick(own: &Option<String>, english: &Option<String>) -> (r: Option<String>)
    ensures
        r == if own is Some {
            *own
        } else {
            *english
        },
{
    match own {
        Some(s) => Some(s.clone()),
        None => match english {
            Some(s) => Some(s.clone()),
            None => None,
        },
    }
}

/// The texts actually shown: each field of the chosen locale, with the
/// English text wherever the chosen locale leaves one out.
pub fn effective_locale(locale: &Locale, english: &Locale) -> (r: Locale)
    ensures
        r.settings == if locale.settings is Some {
            locale.settings
        } else {
            english.settings
        },
        r.search == if locale.search is Some {
            locale.search
        } else {
            english.search
        },
        r.theme == if locale.theme is Some {
            locale.theme
        } else {
            english.theme
        },
        r.window_size == if locale.window_size is Some {
            locale.window_size
        } else {
            english.window_size
        },
        r.music_path == if locale.music_path is Some {
            locale.music_path
        } else {
            english.music_path
        },
        r.language == if locale.language is Some {
            locale.language
        } else {
            english.language
        },
{
    Locale {
        settings: pick(&locale.settings, &english.settings),
        search: pick(&locale.search, &english.search),
        theme: pick(&locale.theme, &english.theme),
        window_size: pick(&locale.window_size, &english.window_size),
        music_path: pick(&locale.music_path, &english.music_path),
        language: pick(&locale.language, &english.language),
    }
}

} // verus!
