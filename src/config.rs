//! Book configuration and its validation.
use vstd::prelude::*;

verus! {

pub fn default_language() -> (r: String)
    ensures
        r@ == "English"@,
{
    String::from_str("English")
}

pub fn default_summary_context_entries() -> (r: usize)
    ensures
        r == 5,
{
    5
}

pub fn default_session_timeout_minutes() -> (r: i64)
    ensures
        r == 60,
{
    60
}

pub fn default_words_per_page() -> (r: u32)
    ensures
        r == 250,
{
    250
}

pub fn default_words_per_chapter() -> (r: u32)
    ensures
        r == 3000,
{
    3000
}

/// The review-window budget; 0 means no limit.
pub fn default_current_review_window_words() -> (r: u32)
    ensures
        r == 0,
{
    0
}

/// Settings of one book. Loaded fresh for every session.
#[derive(Debug)]
pub struct Config {
    pub language: String,
    pub target_length: u32,
    pub chapter_count: u32,
    pub chapter_structure: String,
    pub words_per_session: u32,
    pub summary_context_entries: usize,
    pub session_timeout_minutes: i64,
    pub words_per_page: u32,
    pub words_per_chapter: u32,
    /// Context-window budget of the review document, in tokens; 0 means no limit.
    pub current_review_window_words: u32,
}

/// The first setting found out of range, with its value.
#[derive(Debug, PartialEq, Eq, Structural, Clone, Copy)]
pub enum ConfigError {
    TargetLength(u32),
    ChapterCount(u32),
    WordsPerSession(u32),
    WordsPerChapter(u32),
    WordsPerPage(u32),
    SessionTimeout(i64),
    SummaryContextEntries(usize),
}

impl Config {
    /// Every numeric setting is positive; the review-window budget may be 0.
    pub open spec fn valid(&self) -> bool {
        &&& self.target_length > 0
        &&& self.chapter_count >= 1
        &&& self.words_per_session > 0
        &&& self.words_per_chapter > 0
        &&& self.words_per_page > 0
        &&& self.session_timeout_minutes > 0
        &&& self.summary_context_entries > 0
    }

    /// The first invalid setting, in declaration order of the checks.
    pub open spec fn first_error(&self) -> Option<ConfigError> {
        if self.target_length == 0 {
            Some(ConfigError::TargetLength(self.target_length))
        } else if self.chapter_count < 1 {
            Some(ConfigError::ChapterCount(self.chapter_count))
        } else if self.words_per_session == 0 {
            Some(ConfigError::WordsPerSession(self.words_per_session))
        } else if self.words_per_chapter == 0 {
            Some(ConfigError::WordsPerChapter(self.words_per_chapter))
        } else if self.words_per_page == 0 {
            Some(ConfigError::WordsPerPage(self.words_per_page))
        } else if self.session_timeout_minutes <= 0 {
            Some(ConfigError::SessionTimeout(self.session_timeout_minutes))
        } else if self.summary_context_entries == 0 {
            Some(ConfigError::SummaryContextEntries(self.summary_context_entries))
        } else {
            None
        }
    }

    pub fn validate(&self) -> (r: Result<(), ConfigError>)
        ensures
            r is Ok <==> self.valid(),
            r is Err ==> Some(r->Err_0) == self.first_error(),
            r is Ok ==> self.first_error() is None,
    {
        if self.target_length == 0 {
            return Err(ConfigError::TargetLength(self.target_length));
        }
        if self.chapter_count < 1 {
            return Err(ConfigError::ChapterCount(self.chapter_count));
        }
        if self.words_per_session == 0 {
            return Err(ConfigError::WordsPerSession(self.words_per_session));
        }
        if self.words_per_chapter == 0 {
            return Err(ConfigError::WordsPerChapter(self.words_per_chapter));
        }
        if self.words_per_page == 0 {
            return Err(ConfigError::WordsPerPage(self.words_per_page));
        }
        if self.session_timeout_minutes <= 0 {
            return Err(ConfigError::SessionTimeout(self.session_timeout_minutes));
        }
        if self.summary_context_entries == 0 {
            return Err(ConfigError::SummaryContextEntries(self.summary_context_entries));
        }
        Ok(())
    }
}

/// The part of the configuration handed to the generation step.
#[derive(Debug)]
pub struct ConfigSnapshot {
    pub target_length: u32,
    pub chapter_count: u32,
    pub chapter_structure: String,
    pub words_per_session: u32,
    pub summary_context_entries: usize,
    pub words_per_chapter: u32,
    pub current_chapter: u32,
}

impl ConfigSnapshot {
    pub fn new(config: &Config, current_chapter: u32) -> (r: ConfigSnapshot)
        ensures
            r.target_length == config.target_length,
            r.chapter_count == config.chapter_count,
            r.chapter_structure@ == config.chapter_structure@,
            r.words_per_session == config.words_per_session,
            r.summary_context_entries == config.summary_context_entries,
            r.words_per_chapter == config.words_per_chapter,
            r.current_chapter == current_chapter,
    {
        ConfigSnapshot {
            target_length: config.target_length,
            chapter_count: config.chapter_count,
            chapter_structure: config.chapter_structure.clone(),
            words_per_session: config.words_per_session,
            summary_context_entries: config.summary_context_entries,
            words_per_chapter: config.words_per_chapter,
            current_chapter,
        }
    }

    /// The snapshot reported when a session is refused before any setting
    /// was read.
    pub fn empty() -> (r: ConfigSnapshot)
        ensures
            r.target_length == 0,
            r.chapter_count == 0,
            r.chapter_structure@.len() == 0,
            r.words_per_session == 0,
            r.summary_context_entries == 5,
            r.words_per_chapter == 3000,
            r.current_chapter == 1,
    {
        ConfigSnapshot {
            target_length: 0,
            chapter_count: 0,
            chapter_structure: String::new(),
            words_per_session: 0,
            summary_context_entries: default_summary_context_entries(),
            words_per_chapter: default_words_per_chapter(),
            current_chapter: 1,
        }
    }
}

} // verus!
