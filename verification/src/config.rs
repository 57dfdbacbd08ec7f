//! Persisted configuration: the in-memory configuration record and the
//! update-then-persist contract around it. Reading the file from its
//! per-user location and writing it back are the surrounding program's
//! business; this module owns the record, validates the persisted text, and
//! serializes the record for writing.
use vstd::prelude::*;

use crate::manifest::classify_line;
use crate::manifest::line_malformed;
use crate::manifest::chars_of;

verus! {

/// The application's persisted configuration. It holds no fields yet; the
/// record exists so that configuration can grow without changing the
/// update-then-persist contract around it.
#[derive(Clone, Copy, Debug, PartialEq, Eq, Structural)]
pub struct AppConfig {}

impl Default for AppConfig {
    /// The configuration an application starts with when none is persisted.
    fn default() -> (r: Self)
        ensures
            r == (AppConfig {  }),
    {
        AppConfig {  }
    }
}

/// Whether a persisted configuration text is well-formed: every line is
/// blank, a comment, or a `key = value` entry. All keys are ignored today;
/// they stay readable for the fields the record may grow.
pub open spec fn config_doc_ok(text: Seq<char>, p: int, cur: Seq<char>) -> bool
    decreases text.len() - p,
{
    if p < 0 || p >= text.len() {
        !(classify_line(cur) is Malformed)
    } else if text[p] == '\n' {
        !(classify_line(cur) is Malformed) && config_doc_ok(text, p + 1, Seq::empty())
    } else {
        config_doc_ok(text, p + 1, cur.push(text[p]))
    }
}

/// What a whole persisted configuration text denotes.
pub open spec fn config_spec(text: Seq<char>) -> Option<AppConfig> {
    if config_doc_ok(text, 0, Seq::empty()) {
        Some(AppConfig {  })
    } else {
        None
    }
}

/// The text a configuration is persisted as. The record has no fields, so
/// its persisted form is empty.
pub open spec fn config_text(config: AppConfig) -> Seq<char> {
    Seq::empty()
}

/// Why a persisted configuration text is rejected.
#[derive(Clone, Copy, Debug, PartialEq, Eq, Structural)]
pub enum ConfigError {
    Syntax,
}

/// Owns the configuration record and keeps it consistent with what callers
/// persist: every mutation goes through `update`, and `save` yields exactly
/// the text to write back.
#[derive(Debug)]
pub struct ConfigManager {
    config: AppConfig,
}

impl ConfigManager {
    /// The configuration record held.
    pub closed spec fn config_model(&self) -> AppConfig {
        self.config
    }

    /// A manager holding the default configuration, for when nothing is
    /// persisted yet.
    pub fn new() -> (r: Self)
        ensures
            r.config_model() == (AppConfig {  }),
    {
        ConfigManager { config: AppConfig::default() }
    }

    /// A manager holding the configuration a persisted text denotes; rejects
    /// a malformed text.
    pub fn from_text(text: &str) -> (r: Result<Self, ConfigError>)
        ensures
            match r {
                Ok(m) => config_spec(text@) == Some(m.config_model()),
                Err(ConfigError::Syntax) => config_spec(text@) is None,
            },
    {
        let chars = chars_of(text);
        let mut p: usize = 0;
        let mut cur: Vec<char> = Vec::new();
        loop
            invariant
                p <= chars@.len(),
                chars@ == text@,
                config_doc_ok(text@, 0, Seq::empty()) == config_doc_ok(text@, p as int, cur@),
            decreases chars@.len() - p,
        {
            if p >= chars.len() {
                if line_malformed(&cur) {
                    return Err(ConfigError::Syntax);
                }
                return Ok(ConfigManager { config: AppConfig {  } });
            }
            let c = chars[p];
            if c == '\n' {
                if line_malformed(&cur) {
                    return Err(ConfigError::Syntax);
                }
                cur = Vec::new();
                p = p + 1;
            } else {
                cur.push(c);
                p = p + 1;
            }
        }
    }

    /// A read-only view of the configuration record.
    pub fn get(&self) -> (r: &AppConfig)
        ensures
            *r == self.config_model(),
    {
        &self.config
    }

    /// Replaces the configuration record. The caller persists the result of
    /// `save` afterwards, so that memory and disk never stay divergent.
    pub fn update(&mut self, config: AppConfig)
        ensures
            final(self).config_model() == config,
    {
        self.config = config;
    }

    /// The exact text to persist for the configuration held.
    pub fn save(&self) -> (r: String)
        ensures
            r@ == config_text(self.config_model()),
    {
        String::new()
    }
}

} // verus!
