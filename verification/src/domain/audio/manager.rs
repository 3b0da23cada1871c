//! Prompt languages, and the loaded prompts by language and identifier.
use vstd::prelude::*;
use std::sync::Arc;
use crate::domain::audio::wav::{arc_clone, WavFile};
use crate::store::{KeyOf, Keyed, Store};
use crate::text::{ascii_lower, is_ascii_text, str_eq, to_lowercase, unicode_lowercase};

verus! {

/// Supported languages for audio prompts.
#[derive(Debug, Clone, Copy, PartialEq, Eq, Hash, Structural)]
pub enum Language {
    /// English
    En,
    /// Spanish
    Es,
    /// French
    Fr,
    /// German
    De,
    /// Chinese
    Zh,
    /// Japanese
    Ja,
    /// Korean
    Ko,
    /// Portuguese
    Pt,
    /// Russian
    Ru,
    /// Arabic
    Ar,
}

/// The language named by an already lower-cased code: its two-letter code or
/// its English name.
pub open spec fn language_of_lowercase(s: Seq<char>) -> Option<Language> {
    if s == "en"@ || s == "english"@ {
        Some(Language::En)
    } else if s == "es"@ || s == "spanish"@ {
        Some(Language::Es)
    } else if s == "fr"@ || s == "french"@ {
        Some(Language::Fr)
    } else if s == "de"@ || s == "german"@ {
        Some(Language::De)
    } else if s == "zh"@ || s == "chinese"@ {
        Some(Language::Zh)
    } else if s == "ja"@ || s == "japanese"@ {
        Some(Language::Ja)
    } else if s == "ko"@ || s == "korean"@ {
        Some(Language::Ko)
    } else if s == "pt"@ || s == "portuguese"@ {
        Some(Language::Pt)
    } else if s == "ru"@ || s == "russian"@ {
        Some(Language::Ru)
    } else if s == "ar"@ || s == "arabic"@ {
        Some(Language::Ar)
    } else {
        None
    }
}

impl Language {
    /// The two-letter code.
    pub open spec fn spec_code(self) -> Seq<char> {
        match self {
            Language::En => "en"@,
            Language::Es => "es"@,
            Language::Fr => "fr"@,
            Language::De => "de"@,
            Language::Zh => "zh"@,
            Language::Ja => "ja"@,
            Language::Ko => "ko"@,
            Language::Pt => "pt"@,
            Language::Ru => "ru"@,
            Language::Ar => "ar"@,
        }
    }

    /// The English name.
    pub open spec fn spec_name(self) -> Seq<char> {
        match self {
            Language::En => "English"@,
            Language::Es => "Spanish"@,
            Language::Fr => "French"@,
            Language::De => "German"@,
            Language::Zh => "Chinese"@,
            Language::Ja => "Japanese"@,
            Language::Ko => "Korean"@,
            Language::Pt => "Portuguese"@,
            Language::Ru => "Russian"@,
            Language::Ar => "Arabic"@,
        }
    }

    /// Looks up a language from a code or name, ignoring case.
    pub fn from_code(code: &str) -> (r: Option<Self>)
        ensures
            r == language_of_lowercase(unicode_lowercase(code@)),
            is_ascii_text(code@) ==> r == language_of_lowercase(ascii_lower(code@)),
    {
        let lower = to_lowercase(code);
        Self::from_lowercase(lower.as_str())
    }

    /// Looks up a language from an already lower-cased code or name.
    pub fn from_lowercase(s: &str) -> (r: Option<Self>)
        ensures
            r == language_of_lowercase(s@),
    {
        if str_eq(s, "en") || str_eq(s, "english") {
            Some(Language::En)
        } else if str_eq(s, "es") || str_eq(s, "spanish") {
            Some(Language::Es)
        } else if str_eq(s, "fr") || str_eq(s, "french") {
            Some(Language::Fr)
        } else if str_eq(s, "de") || str_eq(s, "german") {
            Some(Language::De)
        } else if str_eq(s, "zh") || str_eq(s, "chinese") {
            Some(Language::Zh)
        } else if str_eq(s, "ja") || str_eq(s, "japanese") {
            Some(Language::Ja)
        } else if str_eq(s, "ko") || str_eq(s, "korean") {
            Some(Language::Ko)
        } else if str_eq(s, "pt") || str_eq(s, "portuguese") {
            Some(Language::Pt)
        } else if str_eq(s, "ru") || str_eq(s, "russian") {
            Some(Language::Ru)
        } else if str_eq(s, "ar") || str_eq(s, "arabic") {
            Some(Language::Ar)
        } else {
            None
        }
    }

    /// Get the language code.
    pub fn code(&self) -> (r: &'static str)
        ensures
            r@ == self.spec_code(),
    {
        match self {
            Language::En => "en",
            Language::Es => "es",
            Language::Fr => "fr",
            Language::De => "de",
            Language::Zh => "zh",
            Language::Ja => "ja",
            Language::Ko => "ko",
            Language::Pt => "pt",
            Language::Ru => "ru",
            Language::Ar => "ar",
        }
    }

    /// Get the language name.
    pub fn name(&self) -> (r: &'static str)
        ensures
            r@ == self.spec_name(),
    {
        match self {
            Language::En => "English",
            Language::Es => "Spanish",
            Language::Fr => "French",
            Language::De => "German",
            Language::Zh => "Chinese",
            Language::Ja => "Japanese",
            Language::Ko => "Korean",
            Language::Pt => "Portuguese",
            Language::Ru => "Russian",
            Language::Ar => "Arabic",
        }
    }

    /// The display text of a language: its name.
    pub fn to_string(&self) -> (r: String)
        ensures
            r@ == self.spec_name(),
    {
        String::from_str(self.name())
    }
}

impl Default for Language {
    fn default() -> (r: Self)
        ensures
            r == Language::En,
    {
        Language::En
    }
}

/// Every language is found again from its code.
pub proof fn lemma_code_round_trip(l: Language)
    ensures
        language_of_lowercase(l.spec_code()) == Some(l),
{
    reveal_strlit("en");
    reveal_strlit("english");
    reveal_strlit("es");
    reveal_strlit("spanish");
    reveal_strlit("fr");
    reveal_strlit("french");
    reveal_strlit("de");
    reveal_strlit("german");
    reveal_strlit("zh");
    reveal_strlit("chinese");
    reveal_strlit("ja");
    reveal_strlit("japanese");
    reveal_strlit("ko");
    reveal_strlit("korean");
    reveal_strlit("pt");
    reveal_strlit("portuguese");
    reveal_strlit("ru");
    reveal_strlit("russian");
    reveal_strlit("ar");
    reveal_strlit("arabic");
    match l {
        Language::En => {
        },
        Language::Es => {
            assert("es"@[1] != "en"@[1]);
            assert("es"@.len() != "english"@.len());
        },
        Language::Fr => {
            assert("fr"@[0] != "en"@[0]);
            assert("fr"@.len() != "english"@.len());
            assert("fr"@[0] != "es"@[0]);
            assert("fr"@.len() != "spanish"@.len());
        },
        Language::De => {
            assert("de"@[0] != "en"@[0]);
            assert("de"@.len() != "english"@.len());
            assert("de"@[0] != "es"@[0]);
            assert("de"@.len() != "spanish"@.len());
            assert("de"@[0] != "fr"@[0]);
            assert("de"@.len() != "french"@.len());
        },
        Language::Zh => {
            assert("zh"@[0] != "en"@[0]);
            assert("zh"@.len() != "english"@.len());
            assert("zh"@[0] != "es"@[0]);
            assert("zh"@.len() != "spanish"@.len());
            assert("zh"@[0] != "fr"@[0]);
            assert("zh"@.len() != "french"@.len());
            assert("zh"@[0] != "de"@[0]);
            assert("zh"@.len() != "german"@.len());
        },
        Language::Ja => {
            assert("ja"@[0] != "en"@[0]);
            assert("ja"@.len() != "english"@.len());
            assert("ja"@[0] != "es"@[0]);
            assert("ja"@.len() != "spanish"@.len());
            assert("ja"@[0] != "fr"@[0]);
            assert("ja"@.len() != "french"@.len());
            assert("ja"@[0] != "de"@[0]);
            assert("ja"@.len() != "german"@.len());
            assert("ja"@[0] != "zh"@[0]);
            assert("ja"@.len() != "chinese"@.len());
        },
        Language::Ko => {
            assert("ko"@[0] != "en"@[0]);
            assert("ko"@.len() != "english"@.len());
            assert("ko"@[0] != "es"@[0]);
            assert("ko"@.len() != "spanish"@.len());
            assert("ko"@[0] != "fr"@[0]);
            assert("ko"@.len() != "french"@.len());
            assert("ko"@[0] != "de"@[0]);
            assert("ko"@.len() != "german"@.len());
            assert("ko"@[0] != "zh"@[0]);
            assert("ko"@.len() != "chinese"@.len());
            assert("ko"@[0] != "ja"@[0]);
            assert("ko"@.len() != "japanese"@.len());
        },
        Language::Pt => {
            assert("pt"@[0] != "en"@[0]);
            assert("pt"@.len() != "english"@.len());
            assert("pt"@[0] != "es"@[0]);
            assert("pt"@.len() != "spanish"@.len());
            assert("pt"@[0] != "fr"@[0]);
            assert("pt"@.len() != "french"@.len());
            assert("pt"@[0] != "de"@[0]);
            assert("pt"@.len() != "german"@.len());
            assert("pt"@[0] != "zh"@[0]);
            assert("pt"@.len() != "chinese"@.len());
            assert("pt"@[0] != "ja"@[0]);
            assert("pt"@.len() != "japanese"@.len());
            assert("pt"@[0] != "ko"@[0]);
            assert("pt"@.len() != "korean"@.len());
        },
        Language::Ru => {
            assert("ru"@[0] != "en"@[0]);
            assert("ru"@.len() != "english"@.len());
            assert("ru"@[0] != "es"@[0]);
            assert("ru"@.len() != "spanish"@.len());
            assert("ru"@[0] != "fr"@[0]);
            assert("ru"@.len() != "french"@.len());
            assert("ru"@[0] != "de"@[0]);
            assert("ru"@.len() != "german"@.len());
            assert("ru"@[0] != "zh"@[0]);
            assert("ru"@.len() != "chinese"@.len());
            assert("ru"@[0] != "ja"@[0]);
            assert("ru"@.len() != "japanese"@.len());
            assert("ru"@[0] != "ko"@[0]);
            assert("ru"@.len() != "korean"@.len());
            assert("ru"@[0] != "pt"@[0]);
            assert("ru"@.len() != "portuguese"@.len());
        },
        Language::Ar => {
            assert("ar"@[0] != "en"@[0]);
            assert("ar"@.len() != "english"@.len());
            assert("ar"@[0] != "es"@[0]);
            assert("ar"@.len() != "spanish"@.len());
            assert("ar"@[0] != "fr"@[0]);
            assert("ar"@.len() != "french"@.len());
            assert("ar"@[0] != "de"@[0]);
            assert("ar"@.len() != "german"@.len());
            assert("ar"@[0] != "zh"@[0]);
            assert("ar"@.len() != "chinese"@.len());
            assert("ar"@[0] != "ja"@[0]);
            assert("ar"@.len() != "japanese"@.len());
            assert("ar"@[0] != "ko"@[0]);
            assert("ar"@.len() != "korean"@.len());
            assert("ar"@[0] != "pt"@[0]);
            assert("ar"@.len() != "portuguese"@.len());
            assert("ar"@[0] != "ru"@[0]);
            assert("ar"@.len() != "russian"@.len());
        },
    }
}

/// The languages in the order of their codes.
pub open spec fn languages_by_code() -> Seq<Language> {
    seq![
        Language::Ar,
        Language::De,
        Language::En,
        Language::Es,
        Language::Fr,
        Language::Ja,
        Language::Ko,
        Language::Pt,
        Language::Ru,
        Language::Zh,
    ]
}

/// The key a prompt is kept under: its language's code, `/`, its identifier.
pub open spec fn prompt_key(id: Seq<char>, language: Language) -> Seq<char> {
    language.spec_code() + "/"@ + id
}

/// Every language's name reads back as that language, whatever its case:
/// the name is plain ASCII and, lower-cased, is one of the spellings the
/// lookup accepts.
pub proof fn lemma_name_round_trip(l: Language)
    ensures
        is_ascii_text(l.spec_name()),
        language_of_lowercase(ascii_lower(l.spec_name())) == Some(l),
{
    reveal_strlit("Arabic");
    reveal_strlit("Chinese");
    reveal_strlit("English");
    reveal_strlit("French");
    reveal_strlit("German");
    reveal_strlit("Japanese");
    reveal_strlit("Korean");
    reveal_strlit("Portuguese");
    reveal_strlit("Russian");
    reveal_strlit("Spanish");
    reveal_strlit("ar");
    reveal_strlit("arabic");
    reveal_strlit("chinese");
    reveal_strlit("de");
    reveal_strlit("en");
    reveal_strlit("english");
    reveal_strlit("es");
    reveal_strlit("fr");
    reveal_strlit("french");
    reveal_strlit("german");
    reveal_strlit("ja");
    reveal_strlit("japanese");
    reveal_strlit("ko");
    reveal_strlit("korean");
    reveal_strlit("portuguese");
    reveal_strlit("pt");
    reveal_strlit("ru");
    reveal_strlit("russian");
    reveal_strlit("spanish");
    reveal_strlit("zh");
    match l {
        Language::En => {
            assert(ascii_lower("English"@) =~= "english"@);
            assert("en"@.len() != "english"@.len());
        },
        Language::Es => {
            assert(ascii_lower("Spanish"@) =~= "spanish"@);
            assert("en"@.len() != "spanish"@.len());
            assert("english"@[0] != "spanish"@[0]);
            assert("es"@.len() != "spanish"@.len());
        },
        Language::Fr => {
            assert(ascii_lower("French"@) =~= "french"@);
            assert("en"@.len() != "french"@.len());
            assert("english"@.len() != "french"@.len());
            assert("es"@.len() != "french"@.len());
            assert("spanish"@.len() != "french"@.len());
            assert("fr"@.len() != "french"@.len());
        },
        Language::De => {
            assert(ascii_lower("German"@) =~= "german"@);
            assert("en"@.len() != "german"@.len());
            assert("english"@.len() != "german"@.len());
            assert("es"@.len() != "german"@.len());
            assert("spanish"@.len() != "german"@.len());
            assert("fr"@.len() != "german"@.len());
            assert("french"@[0] != "german"@[0]);
            assert("de"@.len() != "german"@.len());
        },
        Language::Zh => {
            assert(ascii_lower("Chinese"@) =~= "chinese"@);
            assert("en"@.len() != "chinese"@.len());
            assert("english"@[0] != "chinese"@[0]);
            assert("es"@.len() != "chinese"@.len());
            assert("spanish"@[0] != "chinese"@[0]);
            assert("fr"@.len() != "chinese"@.len());
            assert("french"@.len() != "chinese"@.len());
            assert("de"@.len() != "chinese"@.len());
            assert("german"@.len() != "chinese"@.len());
            assert("zh"@.len() != "chinese"@.len());
        },
        Language::Ja => {
            assert(ascii_lower("Japanese"@) =~= "japanese"@);
            assert("en"@.len() != "japanese"@.len());
            assert("english"@.len() != "japanese"@.len());
            assert("es"@.len() != "japanese"@.len());
            assert("spanish"@.len() != "japanese"@.len());
            assert("fr"@.len() != "japanese"@.len());
            assert("french"@.len() != "japanese"@.len());
            assert("de"@.len() != "japanese"@.len());
            assert("german"@.len() != "japanese"@.len());
            assert("zh"@.len() != "japanese"@.len());
            assert("chinese"@.len() != "japanese"@.len());
            assert("ja"@.len() != "japanese"@.len());
        },
        Language::Ko => {
            assert(ascii_lower("Korean"@) =~= "korean"@);
            assert("en"@.len() != "korean"@.len());
            assert("english"@.len() != "korean"@.len());
            assert("es"@.len() != "korean"@.len());
            assert("spanish"@.len() != "korean"@.len());
            assert("fr"@.len() != "korean"@.len());
            assert("french"@[0] != "korean"@[0]);
            assert("de"@.len() != "korean"@.len());
            assert("german"@[0] != "korean"@[0]);
            assert("zh"@.len() != "korean"@.len());
            assert("chinese"@.len() != "korean"@.len());
            assert("ja"@.len() != "korean"@.len());
            assert("japanese"@.len() != "korean"@.len());
            assert("ko"@.len() != "korean"@.len());
        },
        Language::Pt => {
            assert(ascii_lower("Portuguese"@) =~= "portuguese"@);
            assert("en"@.len() != "portuguese"@.len());
            assert("english"@.len() != "portuguese"@.len());
            assert("es"@.len() != "portuguese"@.len());
            assert("spanish"@.len() != "portuguese"@.len());
            assert("fr"@.len() != "portuguese"@.len());
            assert("french"@.len() != "portuguese"@.len());
            assert("de"@.len() != "portuguese"@.len());
            assert("german"@.len() != "portuguese"@.len());
            assert("zh"@.len() != "portuguese"@.len());
            assert("chinese"@.len() != "portuguese"@.len());
            assert("ja"@.len() != "portuguese"@.len());
            assert("japanese"@.len() != "portuguese"@.len());
            assert("ko"@.len() != "portuguese"@.len());
            assert("korean"@.len() != "portuguese"@.len());
            assert("pt"@.len() != "portuguese"@.len());
        },
        Language::Ru => {
            assert(ascii_lower("Russian"@) =~= "russian"@);
            assert("en"@.len() != "russian"@.len());
            assert("english"@[0] != "russian"@[0]);
            assert("es"@.len() != "russian"@.len());
            assert("spanish"@[0] != "russian"@[0]);
            assert("fr"@.len() != "russian"@.len());
            assert("french"@.len() != "russian"@.len());
            assert("de"@.len() != "russian"@.len());
            assert("german"@.len() != "russian"@.len());
            assert("zh"@.len() != "russian"@.len());
            assert("chinese"@[0] != "russian"@[0]);
            assert("ja"@.len() != "russian"@.len());
            assert("japanese"@.len() != "russian"@.len());
            assert("ko"@.len() != "russian"@.len());
            assert("korean"@.len() != "russian"@.len());
            assert("pt"@.len() != "russian"@.len());
            assert("portuguese"@.len() != "russian"@.len());
            assert("ru"@.len() != "russian"@.len());
        },
        Language::Ar => {
            assert(ascii_lower("Arabic"@) =~= "arabic"@);
            assert("en"@.len() != "arabic"@.len());
            assert("english"@.len() != "arabic"@.len());
            assert("es"@.len() != "arabic"@.len());
            assert("spanish"@.len() != "arabic"@.len());
            assert("fr"@.len() != "arabic"@.len());
            assert("french"@[0] != "arabic"@[0]);
            assert("de"@.len() != "arabic"@.len());
            assert("german"@[0] != "arabic"@[0]);
            assert("zh"@.len() != "arabic"@.len());
            assert("chinese"@.len() != "arabic"@.len());
            assert("ja"@.len() != "arabic"@.len());
            assert("japanese"@.len() != "arabic"@.len());
            assert("ko"@.len() != "arabic"@.len());
            assert("korean"@[0] != "arabic"@[0]);
            assert("pt"@.len() != "arabic"@.len());
            assert("portuguese"@.len() != "arabic"@.len());
            assert("ru"@.len() != "arabic"@.len());
            assert("russian"@.len() != "arabic"@.len());
            assert("ar"@.len() != "arabic"@.len());
        },
    }
}

/// Different prompts are kept under different keys.
proof fn lemma_prompt_key_injective(id1: Seq<char>, l1: Language, id2: Seq<char>, l2: Language)
    requires
        prompt_key(id1, l1) == prompt_key(id2, l2),
    ensures
        id1 == id2 && l1 == l2,
{
    reveal_strlit("/");
    lemma_code_len(l1);
    lemma_code_len(l2);
    let k = prompt_key(id1, l1);
    assert(k.take(2) =~= l1.spec_code());
    assert(prompt_key(id2, l2).take(2) =~= l2.spec_code());
    lemma_code_injective(l1, l2);
    assert(k.skip(3) =~= id1);
    assert(prompt_key(id2, l2).skip(3) =~= id2);
}

proof fn lemma_code_len(l: Language)
    ensures
        l.spec_code().len() == 2,
{
    reveal_strlit("en");
    reveal_strlit("es");
    reveal_strlit("fr");
    reveal_strlit("de");
    reveal_strlit("zh");
    reveal_strlit("ja");
    reveal_strlit("ko");
    reveal_strlit("pt");
    reveal_strlit("ru");
    reveal_strlit("ar");
}

proof fn lemma_code_injective(l1: Language, l2: Language)
    requires
        l1.spec_code() == l2.spec_code(),
    ensures
        l1 == l2,
{
    lemma_code_round_trip(l1);
    lemma_code_round_trip(l2);
}

/// A loaded prompt, kept under its key.
#[derive(Debug)]
pub struct AudioEntry {
    pub key: String,
    pub language: Language,
    pub id: String,
    pub audio: Arc<WavFile>,
}

impl Keyed for AudioEntry {
    type Key = str;

    open spec fn key(&self) -> Seq<char> {
        self.key@
    }

    open spec fn inv(&self) -> bool {
        self.key@ == prompt_key(self.id@, self.language)
    }

    fn key_ref(&self) -> (r: &str) {
        let r = self.key.as_str();
        assert(r.kv() == r@);
        r
    }
}

fn make_key(id: &str, language: Language) -> (r: String)
    ensures
        r@ == prompt_key(id@, language),
{
    let mut k = String::from_str(language.code());
    k.append("/");
    k.append(id);
    k
}

/// Audio file manager: the loaded prompts, the directory they come from and
/// the default language. Reading files from disk, and what is known of each
/// file besides its audio, belong to the caller.
pub struct AudioFileManager {
    files: Store<AudioEntry>,
    base_dir: String,
    default_language: Language,
}

impl AudioFileManager {
    pub closed spec fn spec_files(&self) -> Store<AudioEntry> {
        self.files
    }

    pub closed spec fn spec_base_dir(&self) -> Seq<char> {
        self.base_dir@
    }

    pub closed spec fn spec_default_language(&self) -> Language {
        self.default_language
    }

    pub open spec fn wf(&self) -> bool {
        self.spec_files().wf()
    }

    /// The prompt with an identifier in a language.
    pub open spec fn prompt(&self, id: Seq<char>, language: Language) -> Option<WavFile> {
        match self.spec_files().get_spec(prompt_key(id, language)) {
            Some(e) => Some(*e.audio),
            None => None,
        }
    }

    /// No prompts yet; English by default.
    pub fn new(base_dir: String) -> (r: Self)
        ensures
            r.wf(),
            r.spec_files().items().len() == 0,
            r.spec_base_dir() == base_dir@,
            r.spec_default_language() == Language::En,
    {
        AudioFileManager { files: Store::new(), base_dir, default_language: Language::En }
    }

    pub fn set_default_language(&mut self, language: Language)
        ensures
            final(self).spec_default_language() == language,
            final(self).spec_files() == old(self).spec_files(),
            final(self).spec_base_dir() == old(self).spec_base_dir(),
    {
        self.default_language = language;
    }

    pub fn default_language(&self) -> (r: Language)
        ensures
            r == self.spec_default_language(),
    {
        self.default_language
    }

    /// The directory prompts are read from.
    pub fn base_dir(&self) -> (r: &str)
        ensures
            r@ == self.spec_base_dir(),
    {
        self.base_dir.as_str()
    }

    /// Keeps a loaded prompt under its identifier and language, in place of
    /// one already there.
    pub fn insert(&mut self, id: &str, language: Language, audio: Arc<WavFile>)
        requires
            old(self).wf(),
        ensures
            final(self).wf(),
            final(self).prompt(id@, language) == Some(*audio),
            forall|k: Seq<char>, l: Language| !(k == id@ && l == language) ==> final(self).prompt(k, l) == old(self).prompt(k, l),
            final(self).spec_default_language() == old(self).spec_default_language(),
            final(self).spec_base_dir() == old(self).spec_base_dir(),
    {
        let key = make_key(id, language);
        self.files.insert(AudioEntry { key, language, id: id.to_string(), audio });
        proof {
            assert forall|k: Seq<char>, l: Language| !(k == id@ && l == language) implies self.prompt(k, l) == old(self).prompt(k, l) by {
                if prompt_key(k, l) == prompt_key(id@, language) {
                    lemma_prompt_key_injective(k, l, id@, language);
                }
            }
        }
    }

    /// The prompt with an identifier in a language.
    pub fn get(&self, id: &str, language: Language) -> (r: Option<Arc<WavFile>>)
        requires
            self.wf(),
        ensures
            match r {
                Some(a) => self.prompt(id@, language) == Some(*a),
                None => self.prompt(id@, language) is None,
            },
    {
        let key = make_key(id, language);
        match self.files.get(key.as_str()) {
            Some(e) => Some(arc_clone(&e.audio)),
            None => None,
        }
    }

    /// The prompt with an identifier in the default language.
    pub fn get_default(&self, id: &str) -> (r: Option<Arc<WavFile>>)
        requires
            self.wf(),
        ensures
            match r {
                Some(a) => self.prompt(id@, self.spec_default_language()) == Some(*a),
                None => self.prompt(id@, self.spec_default_language()) is None,
            },
    {
        self.get(id, self.default_language)
    }

    /// The prompt with an identifier in a language, else in the default one.
    pub fn get_with_fallback(&self, id: &str, language: Language) -> (r: Option<Arc<WavFile>>)
        requires
            self.wf(),
        ensures
            match r {
                Some(a) => self.prompt(id@, language) == Some(*a) || (self.prompt(id@, language) is None
                    && self.prompt(id@, self.spec_default_language()) == Some(*a)),
                None => self.prompt(id@, language) is None && self.prompt(id@, self.spec_default_language()) is None,
            },
    {
        match self.get(id, language) {
            Some(a) => Some(a),
            None => self.get(id, self.default_language),
        }
    }

    pub fn is_loaded(&self, id: &str, language: Language) -> (r: bool)
        requires
            self.wf(),
        ensures
            r == (self.prompt(id@, language) is Some),
    {
        let key = make_key(id, language);
        self.files.find(key.as_str()).is_some()
    }

    /// Forgets a prompt.
    pub fn remove(&mut self, id: &str, language: Language)
        requires
            old(self).wf(),
        ensures
            final(self).wf(),
            final(self).prompt(id@, language) is None,
            forall|k: Seq<char>, l: Language| !(k == id@ && l == language) ==> final(self).prompt(k, l) == old(self).prompt(k, l),
            final(self).spec_default_language() == old(self).spec_default_language(),
    {
        let key = make_key(id, language);
        let _ = self.files.remove(key.as_str());
        proof {
            assert forall|k: Seq<char>, l: Language| !(k == id@ && l == language) implies self.prompt(k, l) == old(self).prompt(k, l) by {
                if prompt_key(k, l) == prompt_key(id@, language) {
                    lemma_prompt_key_injective(k, l, id@, language);
                }
            }
        }
    }

    /// Forgets every prompt.
    pub fn clear(&mut self)
        ensures
            final(self).wf(),
            final(self).spec_files().items().len() == 0,
            final(self).spec_default_language() == old(self).spec_default_language(),
    {
        self.files.clear();
    }

    pub fn count(&self) -> (r: usize)
        ensures
            r == self.spec_files().items().len(),
    {
        self.files.len()
    }
}

/// Text order, character by character (the order of UTF-8 bytes).
pub open spec fn text_le(a: Seq<char>, b: Seq<char>) -> bool
    decreases a.len(),
{
    if a.len() == 0 {
        true
    } else if b.len() == 0 {
        false
    } else if a[0] != b[0] {
        a[0] < b[0]
    } else {
        text_le(a.drop_first(), b.drop_first())
    }
}

proof fn lemma_text_le_total(a: Seq<char>, b: Seq<char>)
    ensures
        text_le(a, b) || text_le(b, a),
        text_le(a, b) && text_le(b, a) ==> a == b,
    decreases a.len(),
{
    if a.len() > 0 && b.len() > 0 && a[0] == b[0] {
        lemma_text_le_total(a.drop_first(), b.drop_first());
        if a.drop_first() == b.drop_first() {
            assert(a =~= seq![a[0]] + a.drop_first());
            assert(b =~= seq![b[0]] + b.drop_first());
        }
    } else if a.len() == 0 && b.len() == 0 {
        assert(a =~= b);
    }
}

proof fn lemma_text_le_trans(a: Seq<char>, b: Seq<char>, c: Seq<char>)
    requires
        text_le(a, b),
        text_le(b, c),
    ensures
        text_le(a, c),
    decreases a.len(),
{
    if a.len() > 0 && b.len() > 0 && c.len() > 0 && a[0] == b[0] && b[0] == c[0] {
        lemma_text_le_trans(a.drop_first(), b.drop_first(), c.drop_first());
    }
}

fn text_le_exec(a: &Vec<char>, b: &Vec<char>) -> (r: bool)
    ensures
        r == text_le(a@, b@),
{
    let mut i: usize = 0;
    assert(a@.skip(0) =~= a@ && b@.skip(0) =~= b@);
    while i < a.len() && i < b.len() && a[i] == b[i]
        invariant
            i <= a@.len() && i <= b@.len(),
            text_le(a@, b@) == text_le(a@.skip(i as int), b@.skip(i as int)),
        decreases a@.len() - i,
    {
        assert(a@.skip(i as int).drop_first() =~= a@.skip(i + 1));
        assert(b@.skip(i as int).drop_first() =~= b@.skip(i + 1));
        i = i + 1;
    }
    if i == a.len() {
        assert(a@.skip(i as int).len() == 0);
        true
    } else if i == b.len() {
        assert(b@.skip(i as int).len() == 0);
        false
    } else {
        assert(a@.skip(i as int)[0] == a@[i as int] && b@.skip(i as int)[0] == b@[i as int]);
        a[i] < b[i]
    }
}

/// The texts of the strings.
pub open spec fn texts(v: Seq<String>) -> Seq<Seq<char>> {
    v.map_values(|s: String| s@)
}

/// Texts in order, none repeated.
pub open spec fn sorted_distinct(s: Seq<Seq<char>>) -> bool {
    forall|i: int, j: int| 0 <= i < j < s.len() ==> text_le(#[trigger] s[i], #[trigger] s[j]) && s[i] != s[j]
}

fn text_le_at(x: &Vec<char>, v: &Vec<String>, i: usize) -> (r: bool)
    requires
        i < v@.len(),
    ensures
        r == text_le(x@, v@[i as int]@),
{
    let c = crate::text::chars_of(v[i].as_str());
    text_le_exec(x, &c)
}

/// Puts a text into a sorted list without repeats, unless it is there.
fn insert_sorted(out: &mut Vec<String>, x: String)
    requires
        sorted_distinct(texts(old(out)@)),
    ensures
        sorted_distinct(texts(final(out)@)),
        forall|t: Seq<char>| texts(final(out)@).contains(t) <==> (texts(old(out)@).contains(t) || t == x@),
{
    let ghost before = texts(out@);
    let ghost old_out = out@;
    let xc = crate::text::chars_of(x.as_str());
    let mut pos: usize = 0;
    while pos < out.len() && !text_le_at(&xc, out, pos)
        invariant
            pos <= out@.len(),
            out@ == old_out,
            before == texts(old_out),
            xc@ == x@,
            forall|k: int| 0 <= k < pos ==> text_le(#[trigger] before[k], x@) && before[k] != x@,
        decreases out@.len() - pos,
    {
        proof {
            assert(before[pos as int] == out@[pos as int]@);
            lemma_text_le_total(x@, before[pos as int]);
        }
        pos = pos + 1;
    }
    if pos < out.len() {
        let oc = crate::text::chars_of(out[pos].as_str());
        if crate::text::vec_eq(&xc, &oc) {
            proof {
                assert(before[pos as int] == x@);
                assert forall|t: Seq<char>| texts(out@).contains(t) <==> (before.contains(t) || t == x@) by {
                    if t == x@ {
                        assert(before[pos as int] == t);
                    }
                }
            }
            return;
        }
    }
    proof {
        assert(pos < before.len() ==> text_le(x@, before[pos as int]) && before[pos as int] != x@);
    }
    out.insert(pos, x);
    proof {
        let after = texts(out@);
        let p = pos as int;
        assert(after =~= before.insert(p, x@));
        assert forall|i: int, j: int| 0 <= i < j < after.len() implies text_le(#[trigger] after[i], #[trigger] after[j])
            && after[i] != after[j] by {
            if j < p {
                assert(after[i] == before[i] && after[j] == before[j]);
            } else if j == p {
                assert(after[i] == before[i] && after[j] == x@);
            } else if i < p {
                assert(after[i] == before[i] && after[j] == before[j - 1]);
            } else if i == p {
                assert(after[j] == before[j - 1]);
                if j - 1 > p {
                    lemma_text_le_trans(x@, before[p], before[j - 1]);
                }
                if x@ == before[j - 1] {
                    lemma_text_le_total(before[p], x@);
                }
            } else {
                assert(after[i] == before[i - 1] && after[j] == before[j - 1]);
            }
        }
        assert forall|t: Seq<char>| after.contains(t) <==> (before.contains(t) || t == x@) by {
            if after.contains(t) {
                let k = choose|k: int| 0 <= k < after.len() && after[k] == t;
                if k < p {
                    assert(before[k] == t);
                } else if k > p {
                    assert(before[k - 1] == t);
                }
            }
            if before.contains(t) {
                let k = choose|k: int| 0 <= k < before.len() && before[k] == t;
                if k < p {
                    assert(after[k] == t);
                } else {
                    assert(after[k + 1] == t);
                }
            }
            if t == x@ {
                assert(after[p] == t);
            }
        }
    }
}

impl AudioFileManager {
    /// The identifiers of the loaded prompts, in text order, each once.
    pub fn list_ids(&self) -> (r: Vec<String>)
        ensures
            sorted_distinct(texts(r@)),
            forall|t: Seq<char>| texts(r@).contains(t) <==> exists|i: int|
                0 <= i < self.spec_files().items().len() && (#[trigger] self.spec_files().items()[i]).id@ == t,
    {
        let ghost items = self.files.items();
        let mut out: Vec<String> = Vec::new();
        let mut i: usize = 0;
        while i < self.files.len()
            invariant
                items == self.files.items(),
                i <= items.len(),
                sorted_distinct(texts(out@)),
                forall|t: Seq<char>| texts(out@).contains(t) <==> exists|k: int| 0 <= k < i && (#[trigger] items[k]).id@ == t,
            decreases items.len() - i,
        {
            let id = self.files.at(i).id.clone();
            let ghost prev = texts(out@);
            insert_sorted(&mut out, id);
            proof {
                assert forall|t: Seq<char>| texts(out@).contains(t) <==> exists|k: int| 0 <= k < i + 1 && (#[trigger] items[k]).id@ == t by {
                    if t == items[i as int].id@ {
                        assert(0 <= i < i + 1 && items[i as int].id@ == t);
                    }
                    if exists|k: int| 0 <= k < i + 1 && (#[trigger] items[k]).id@ == t {
                        let k = choose|k: int| 0 <= k < i + 1 && (#[trigger] items[k]).id@ == t;
                        if k < i {
                            assert(prev.contains(t));
                        }
                    }
                }
            }
            i = i + 1;
        }
        out
    }

    /// The languages of the loaded prompts, in the order of their codes.
    pub fn list_languages(&self) -> (r: Vec<Language>)
        ensures
            r@ == languages_by_code().filter(|l: Language| exists|i: int|
                0 <= i < self.spec_files().items().len() && (#[trigger] self.spec_files().items()[i]).language == l),
    {
        let ghost items = self.files.items();
        let ghost f = |l: Language| exists|i: int| 0 <= i < items.len() && (#[trigger] items[i]).language == l;
        let all: Vec<Language> = vec![
            Language::Ar,
            Language::De,
            Language::En,
            Language::Es,
            Language::Fr,
            Language::Ja,
            Language::Ko,
            Language::Pt,
            Language::Ru,
            Language::Zh,
        ];
        assert(all@ =~= languages_by_code());
        let mut out: Vec<Language> = Vec::new();
        let mut j: usize = 0;
        assert(all@.take(0).filter(f) =~= Seq::<Language>::empty());
        while j < all.len()
            invariant
                items == self.files.items(),
                all@ == languages_by_code(),
                j <= all@.len(),
                f == (|l: Language| exists|i: int| 0 <= i < items.len() && (#[trigger] items[i]).language == l),
                out@ == all@.take(j as int).filter(f),
            decreases all@.len() - j,
        {
            let l = all[j];
            let mut found = false;
            let mut i: usize = 0;
            while i < self.files.len()
                invariant
                    items == self.files.items(),
                    i <= items.len(),
                    found == exists|k: int| 0 <= k < i && (#[trigger] items[k]).language == l,
                decreases items.len() - i,
            {
                if self.files.at(i).language == l {
                    found = true;
                }
                i = i + 1;
            }
            proof {
                reveal(Seq::filter);
                assert(all@.take(j + 1).drop_last() =~= all@.take(j as int));
            }
            if found {
                out.push(l);
            }
            j = j + 1;
        }
        assert(all@.take(j as int) =~= all@);
        out
    }
}

} // verus!
