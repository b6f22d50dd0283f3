use vstd::prelude::*;
use std::collections::HashMap;
use crate::map::{load_map, parse_post, ParseError};
use crate::store::EntityStore;

verus! {

broadcast use vstd::std_specs::hash::group_hash_axioms;

/// Why a level could not be loaded from the store.
#[derive(Clone, Debug, PartialEq, Eq)]
pub enum LevelError {
    /// No level text is registered under this index.
    NotFound(u8),
    /// The level text is registered but does not parse.
    Invalid(ParseError),
}

/// The registered level texts, keyed by level index.
pub struct LevelStore {
    pub levels: HashMap<u8, String>,
}

impl Default for LevelStore {
    fn default() -> (s: Self)
        ensures
            s.levels@ =~= Map::<u8, String>::empty(),
    {
        LevelStore { levels: HashMap::new() }
    }
}

impl LevelStore {
    /// Register a level text under an index, replacing what was there.
    pub fn add_level(&mut self, level: u8, text: String)
        ensures
            final(self).levels@ == old(self).levels@.insert(level, text),
    {
        self.levels.insert(level, text);
    }

    /// Look up the text registered under a level index and parse it into
    /// a freshly populated entity store.
    ///
    /// A missing index is reported as such; a registered text is parsed
    /// under the full parsing contract, with a rejection carried through.
    pub fn load_level(&self, level: u8) -> (r: Result<EntityStore, LevelError>)
        ensures
            (match r {
                Ok(store) => self.levels@.contains_key(level) && parse_post(
                    self.levels@[level]@,
                    Ok(store),
                ),
                Err(e) => match e {
                    LevelError::NotFound(l) => l == level && !self.levels@.contains_key(level),
                    LevelError::Invalid(pe) => self.levels@.contains_key(level) && parse_post(
                        self.levels@[level]@,
                        Err(pe),
                    ),
                },
            }),
    {
        match self.levels.get(&level) {
            None => Err(LevelError::NotFound(level)),
            Some(text) => match load_map(text.as_str()) {
                Ok(store) => Ok(store),
                Err(e) => Err(LevelError::Invalid(e)),
            },
        }
    }
}

} // verus!
