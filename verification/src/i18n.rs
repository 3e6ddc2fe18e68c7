//! Localization: the mechanism, and the English catalogue.
//!
//! Every user-visible string has a stable key. [`Catalog::get`] resolves a key
//! against the selected language, falling back to English, and finally to a
//! marker that is visible in the user interface rather than silently blank.

use crate::text::{ascii_lowercase, chars_of, same_text, trimmed};
use vstd::prelude::*;
use vstd::string::*;

verus! {

/// The languages that can be displayed.
#[derive(Debug, Clone, Copy, PartialEq, Eq, Structural)]
pub enum Language {
    /// Follow the operating system, falling back to English.
    System,
    /// English.
    English,
}

impl Default for Language {
    /// Follow the operating system.
    fn default() -> (language: Language)
        ensures
            language == Language::System,
    {
        Language::System
    }
}

/// A separator after the language in a locale such as `en_GB.UTF-8`.
pub open spec fn ends_language(c: char) -> bool {
    c == '_' || c == '.' || c == '@'
}

/// The language part of a locale.
pub open spec fn language_part(locale: Seq<char>) -> Seq<char>
    decreases locale.len(),
{
    if locale.len() == 0 || ends_language(locale[0]) {
        seq![]
    } else {
        seq![locale[0]] + language_part(locale.subrange(1, locale.len() as int))
    }
}

proof fn lemma_language_part(locale: Seq<char>, end: int)
    requires
        0 <= end <= locale.len(),
        forall|i: int| 0 <= i < end ==> !ends_language(#[trigger] locale[i]),
        end < locale.len() ==> ends_language(locale[end]),
    ensures
        language_part(locale) == locale.subrange(0, end),
    decreases locale.len(),
{
    if end > 0 {
        let rest = locale.subrange(1, locale.len() as int);
        assert(!ends_language(locale[0]));
        assert forall|i: int| 0 <= i < end - 1 implies !ends_language(#[trigger] rest[i]) by {
            assert(!ends_language(locale[i + 1]));
        }
        lemma_language_part(rest, end - 1);
        assert(seq![locale[0]] + rest.subrange(0, end - 1) =~= locale.subrange(0, end));
    } else {
        assert(locale.subrange(0, end) =~= seq![]);
    }
}

impl Language {
    /// Every language.
    pub fn all() -> (languages: Vec<Language>)
        ensures
            languages@ == seq![Language::System, Language::English],
            forall|l: Language| #[trigger] languages@.contains(l),
    {
        let mut languages: Vec<Language> = Vec::new();
        languages.push(Language::System);
        languages.push(Language::English);
        assert(languages@[0] == Language::System && languages@[1] == Language::English);
        languages
    }

    /// What [`Language::code`] gives.
    pub open spec fn code_text(self) -> Seq<char> {
        match self {
            Language::System => "system"@,
            Language::English => "en"@,
        }
    }

    /// The language's code.
    pub fn code(&self) -> (code: &'static str)
        ensures
            code@ == self.code_text(),
    {
        match self {
            Language::System => "system",
            Language::English => "en",
        }
    }

    /// What [`Language::resolve`] gives.
    pub open spec fn resolved(self, locale: Option<&str>) -> Language {
        match self {
            Language::System => Language::of_locale(locale),
            Language::English => Language::English,
        }
    }

    /// The language that a locale names, where there is a catalogue for it.
    pub open spec fn named_by(locale: Option<&str>) -> Option<Language> {
        match locale {
            Some(raw) => if crate::text::lowered(language_part(raw@)) == "en"@ {
                Some(Language::English)
            } else {
                None
            },
            None => None,
        }
    }

    /// The language of a locale, or English where there is no catalogue for it.
    pub open spec fn of_locale(locale: Option<&str>) -> Language {
        match Language::named_by(locale) {
            Some(language) => language,
            None => Language::English,
        }
    }

    /// Resolve [`Language::System`] against the locale that the environment
    /// names, if any.
    pub fn resolve(self, locale: Option<&str>) -> (language: Language)
        ensures
            language == self.resolved(locale),
            language != Language::System,
    {
        match self {
            Language::System => match Language::from_environment(locale) {
                Some(language) => language,
                None => Language::English,
            },
            Language::English => Language::English,
        }
    }

    /// The language that a locale names, where there is a catalogue for it:
    /// `en_GB.UTF-8` names English.
    pub fn from_environment(locale: Option<&str>) -> (language: Option<Language>)
        ensures
            language == Language::named_by(locale),
    {
        let raw = match locale {
            Some(raw) => raw,
            None => {
                return None;
            },
        };
        let chars = chars_of(raw);
        let mut end: usize = 0;
        while end < chars.len() && chars[end] != '_' && chars[end] != '.' && chars[end] != '@'
            invariant
                end <= chars@.len(),
                chars@ == raw@,
                forall|i: int| 0 <= i < end ==> !ends_language(#[trigger] raw@[i]),
            decreases chars.len() - end,
        {
            end = end + 1;
        }
        proof {
            lemma_language_part(raw@, end as int);
        }
        let prefix = ascii_lowercase(raw.substring_char(0, end));
        if same_text(prefix.as_str(), "en") {
            Some(Language::English)
        } else {
            None
        }
    }

    /// What a language's name stands for, whatever its case and the space
    /// around it.
    pub open spec fn named(s: Seq<char>) -> Option<Language> {
        let needle = crate::text::lowered(crate::text::trimmed_text(s));
        if needle == "system"@ {
            Some(Language::System)
        } else if needle == "en"@ {
            Some(Language::English)
        } else {
            None
        }
    }

    /// Read a language's code.
    pub fn from_code(s: &str) -> (result: Result<Language, LanguageParseError>)
        ensures
            match Language::named(s@) {
                Some(language) => result == Ok::<Language, LanguageParseError>(language),
                None => result matches Err(e) && e.0@ == s@,
            },
    {
        let needle = ascii_lowercase(trimmed(s));
        if same_text(needle.as_str(), "system") {
            Ok(Language::System)
        } else if same_text(needle.as_str(), "en") {
            Ok(Language::English)
        } else {
            Err(LanguageParseError(s.to_owned()))
        }
    }
}

/// A name that stands for no language.
#[derive(Debug, Clone, PartialEq, Eq)]
pub struct LanguageParseError(pub String);

impl LanguageParseError {
    /// The message shown to the user.
    pub fn message(&self) -> (text: String)
        ensures
            text@ == "unknown language `"@ + self.0@ + "`"@,
    {
        let mut text = crate::text::joined("unknown language `", self.0.as_str());
        text.append("`");
        text
    }
}

impl std::str::FromStr for Language {
    type Err = LanguageParseError;

    fn from_str(s: &str) -> Result<Language, LanguageParseError> {
        Language::from_code(s)
    }
}

/// A language's code reads back as the language.
pub proof fn law_codes_round_trip(language: Language)
    ensures
        Language::named(language.code_text()) == Some(language),
{
    reveal_strlit("system");
    reveal_strlit("en");
    reveal_with_fuel(crate::text::trimmed_by, 2);
    assert(crate::text::lowered("system"@) =~= "system"@);
    assert(crate::text::lowered("en"@) =~= "en"@);
    assert("system"@.len() == 6 && "en"@.len() == 2);
}

/// Shown when a key has no entry in any catalogue.
pub const MISSING: &'static str = "???";

/// The English catalogue.
pub open spec fn english_table() -> Seq<(Seq<char>, Seq<char>)> {
    seq![
        ("tool.pointer"@, "Pointer"@),
        ("tool.crop"@, "Crop"@),
        ("tool.line"@, "Line"@),
        ("tool.arrow"@, "Arrow"@),
        ("tool.rectangle"@, "Rect"@),
        ("tool.ellipse"@, "Ellipse"@),
        ("tool.text"@, "Text"@),
        ("tool.marker"@, "Number"@),
        ("tool.brush"@, "Brush"@),
        ("tool.highlight"@, "Highlight"@),
        ("tool.blur"@, "Obscure"@),
        ("action.undo"@, "Undo"@),
        ("action.redo"@, "Redo"@),
        ("action.copy"@, "Copy"@),
        ("action.save"@, "Save"@),
        ("action.settings"@, "Settings"@),
        ("action.recent"@, "Recent"@),
        ("action.apply_crop"@, "Apply crop"@),
        ("action.fit"@, "Fit"@),
        ("action.actual_size"@, "1:1"@),
        ("action.fill"@, "Fill"@),
        ("status.copied"@, "Copied to clipboard"@),
        ("status.undo"@, "Undo"@),
        ("status.redo"@, "Redo"@),
        ("status.cleared"@, "Cleared all annotations"@),
        ("status.deleted"@, "Deleted"@),
        ("status.nothing_selected"@, "Nothing selected"@),
        ("status.nothing_saved"@, "Nothing saved yet"@),
        ("status.nothing_to_crop"@, "Nothing to crop — drag a smaller selection first"@),
        ("overlay.hint"@, "Drag to select a region · click a window · Esc to cancel"@),
        ("settings.title"@, "Settings"@),
        ("settings.appearance"@, "Appearance"@),
        ("settings.drawing"@, "Drawing"@),
        ("settings.behaviour"@, "Behaviour"@),
        ("settings.capture"@, "Capture"@),
        ("settings.privacy"@, "Privacy"@),
        ("settings.theme"@, "Theme"@),
        ("settings.save_to_file"@, "Save to config file"@),
    ]
}

/// The entry for `key`: the first one, if there are several.
pub open spec fn entry_for(table: Seq<(Seq<char>, Seq<char>)>, key: Seq<char>) -> Option<Seq<char>>
    decreases table.len(),
{
    if table.len() == 0 {
        None
    } else if table[0].0 == key {
        Some(table[0].1)
    } else {
        entry_for(table.subrange(1, table.len() as int), key)
    }
}

/// The text of a table's entries.
pub open spec fn texts(table: Seq<(&'static str, &'static str)>) -> Seq<(Seq<char>, Seq<char>)> {
    Seq::new(table.len(), |i: int| (table[i].0@, table[i].1@))
}

/// Every user-visible string, by key. Keys are named for the thing they label,
/// not for the English text, so that rewording it churns no translation.
pub fn english() -> (table: Vec<(&'static str, &'static str)>)
    ensures
        texts(table@) == english_table(),
{
    let mut table: Vec<(&'static str, &'static str)> = Vec::new();
    table.push(("tool.pointer", "Pointer"));
    table.push(("tool.crop", "Crop"));
    table.push(("tool.line", "Line"));
    table.push(("tool.arrow", "Arrow"));
    table.push(("tool.rectangle", "Rect"));
    table.push(("tool.ellipse", "Ellipse"));
    table.push(("tool.text", "Text"));
    table.push(("tool.marker", "Number"));
    table.push(("tool.brush", "Brush"));
    table.push(("tool.highlight", "Highlight"));
    table.push(("tool.blur", "Obscure"));
    table.push(("action.undo", "Undo"));
    table.push(("action.redo", "Redo"));
    table.push(("action.copy", "Copy"));
    table.push(("action.save", "Save"));
    table.push(("action.settings", "Settings"));
    table.push(("action.recent", "Recent"));
    table.push(("action.apply_crop", "Apply crop"));
    table.push(("action.fit", "Fit"));
    table.push(("action.actual_size", "1:1"));
    table.push(("action.fill", "Fill"));
    table.push(("status.copied", "Copied to clipboard"));
    table.push(("status.undo", "Undo"));
    table.push(("status.redo", "Redo"));
    table.push(("status.cleared", "Cleared all annotations"));
    table.push(("status.deleted", "Deleted"));
    table.push(("status.nothing_selected", "Nothing selected"));
    table.push(("status.nothing_saved", "Nothing saved yet"));
    table.push(("status.nothing_to_crop", "Nothing to crop — drag a smaller selection first"));
    table.push(("overlay.hint", "Drag to select a region · click a window · Esc to cancel"));
    table.push(("settings.title", "Settings"));
    table.push(("settings.appearance", "Appearance"));
    table.push(("settings.drawing", "Drawing"));
    table.push(("settings.behaviour", "Behaviour"));
    table.push(("settings.capture", "Capture"));
    table.push(("settings.privacy", "Privacy"));
    table.push(("settings.theme", "Theme"));
    table.push(("settings.save_to_file", "Save to config file"));
    assert(texts(table@) =~= english_table());
    table
}

/// The entry for `key`: the first one, if there are several.
pub fn lookup(table: &Vec<(&'static str, &'static str)>, key: &str) -> (value: Option<&'static str>)
    ensures
        match value {
            Some(v) => entry_for(texts(table@), key@) == Some(v@),
            None => entry_for(texts(table@), key@) is None,
        },
{
    let ghost all = texts(table@);
    let mut i: usize = 0;
    assert(all.subrange(0, all.len() as int) =~= all);
    while i < table.len()
        invariant
            i <= table@.len(),
            all == texts(table@),
            entry_for(all, key@) == entry_for(all.subrange(i as int, all.len() as int), key@),
        decreases table.len() - i,
    {
        let ghost rest = all.subrange(i as int, all.len() as int);
        assert(rest[0] == all[i as int]);
        if same_text(table[i].0, key) {
            return Some(table[i].1);
        }
        assert(rest.subrange(1, rest.len() as int) =~= all.subrange(i + 1, all.len() as int));
        i = i + 1;
    }
    None
}

/// A resolved language plus its lookup table.
#[derive(Debug, Clone, Copy, PartialEq, Eq, Structural)]
pub struct Catalog {
    /// The resolved language.
    pub language: Language,
}

impl Default for Catalog {
    /// The catalogue for the language of the operating system.
    fn default() -> (catalog: Catalog)
        ensures
            catalog.language == Language::System.resolved(None),
    {
        Catalog::new(Language::default(), None)
    }
}

impl Catalog {
    /// The catalogue for a language, resolved against the environment's locale.
    pub fn new(language: Language, locale: Option<&str>) -> (catalog: Catalog)
        ensures
            catalog.language == language.resolved(locale),
            catalog.language != Language::System,
    {
        Catalog { language: language.resolve(locale) }
    }

    /// The resolved language.
    pub fn language(&self) -> (language: Language)
        ensures
            language == self.language,
    {
        self.language
    }

    /// What [`Catalog::get`] gives.
    pub open spec fn text_for(self, key: Seq<char>) -> Seq<char> {
        match entry_for(english_table(), key) {
            Some(value) => value,
            None => MISSING@,
        }
    }

    /// The string for `key`, or a visible marker when there is none: a gap shows
    /// up in the user interface instead of silently blanking a button.
    pub fn get(&self, key: &str) -> (value: &'static str)
        ensures
            value@ == self.text_for(key@),
    {
        let table = english();
        match lookup(&table, key) {
            Some(value) => value,
            None => MISSING,
        }
    }
}

/// The language of a locale is what comes before its first underscore, dot or
/// at sign, and all of it where there is none.
pub proof fn law_the_language_comes_first(locale: Seq<char>)
    ensures
        ({
            let part = language_part(locale);
            &&& part.len() <= locale.len()
            &&& part == locale.take(part.len() as int)
            &&& forall|i: int|
                0 <= i < part.len() ==> #[trigger] part[i] != '_' && part[i] != '.' && part[i]
                    != '@'
            &&& part.len() < locale.len() ==> {
                let c = locale[part.len() as int];
                c == '_' || c == '.' || c == '@'
            }
        }),
    decreases locale.len(),
{
    let part = language_part(locale);
    if locale.len() > 0 && !ends_language(locale[0]) {
        let rest = locale.subrange(1, locale.len() as int);
        law_the_language_comes_first(rest);
        let below = language_part(rest);
        assert(part =~= locale.take(part.len() as int));
        assert forall|i: int| 0 <= i < part.len() implies #[trigger] part[i] != '_' && part[i]
            != '.' && part[i] != '@' by {
            if i > 0 {
                assert(part[i] == below[i - 1]);
            }
        }
    } else {
        assert(part =~= locale.take(0));
    }
}

/// A locale names English by the code of it, in any case, and a locale that
/// names nothing else is read as English too.
pub proof fn law_every_locale_reads_as_english(language: Language, locale: Option<&str>)
    ensures
        language.resolved(locale) == Language::English,
        locale matches Some(raw) ==> (Language::named_by(locale) == Some(Language::English)
            <==> crate::text::lowered(language_part(raw@)) == "en"@),
        locale matches Some(raw) ==> (Language::named_by(locale) is None
            <==> crate::text::lowered(language_part(raw@)) != "en"@),
        locale is None ==> Language::named_by(locale) is None,
{
}

/// The first entry with a key counts, and a key without one shows as missing.
pub proof fn law_the_first_entry_counts(
    table: Seq<(Seq<char>, Seq<char>)>,
    key: Seq<char>,
    i: int,
)
    requires
        0 <= i < table.len(),
        forall|j: int| 0 <= j < i ==> (#[trigger] table[j]).0 != key,
    ensures
        table[i].0 == key ==> entry_for(table, key) == Some(table[i].1),
        table[i].0 != key && i == table.len() - 1 ==> entry_for(table, key) is None,
    decreases table.len(),
{
    let rest = table.subrange(1, table.len() as int);
    if i > 0 {
        assert(table[0].0 != key);
        assert forall|j: int| 0 <= j < i - 1 implies (#[trigger] rest[j]).0 != key by {
            assert(rest[j] == table[j + 1]);
        }
        law_the_first_entry_counts(rest, key, i - 1);
    } else if table.len() == 1 {
        assert(rest.len() == 0);
        assert(entry_for(rest, key) is None);
    }
}

/// A key with an entry shows that entry, and one without shows a marker.
pub proof fn law_keys_without_an_entry_show(catalog: Catalog, key: Seq<char>)
    ensures
        entry_for(english_table(), key) matches Some(text) ==> catalog.text_for(key) == text,
        entry_for(english_table(), key) is None ==> catalog.text_for(key) == "???"@,
{
}

} // verus!
