//! The model registry: the models the configuration names, with their
//! providers and specialties, looked up by identifier. Loading the
//! configuration file happens outside the library.

use vstd::prelude::*;

use crate::text::str_eq;

verus! {

/// One configured model.
#[derive(Debug)]
pub struct ModelInfo {
    pub id: String,
    pub provider: String,
    pub api_key_env: String,
    pub tools: Vec<String>,
    pub specialty: String,
}

/// The registry of configured models and the default choice.
#[derive(Debug)]
pub struct ModelRegistry {
    pub default_model: String,
    pub models: Vec<ModelInfo>,
}

/// The first model carrying an identifier, if any.
pub open spec fn model_lookup(models: Seq<ModelInfo>, id: Seq<char>) -> Option<ModelInfo>
    decreases models.len(),
{
    if models.len() == 0 {
        None
    } else if models[0].id@ == id {
        Some(models[0])
    } else {
        model_lookup(models.skip(1), id)
    }
}

impl ModelRegistry {
    /// A registry from its parts.
    pub fn new(default_model: String, models: Vec<ModelInfo>) -> (r: ModelRegistry)
        ensures
            r.default_model == default_model,
            r.models == models,
    {
        ModelRegistry { default_model, models }
    }

    /// The model a configuration names, if any.
    pub fn get(&self, id: &str) -> (r: Option<&ModelInfo>)
        ensures
            r matches Some(m) ==> model_lookup(self.models@, id@) == Some(*m),
            r is None ==> model_lookup(self.models@, id@) is None,
    {
        let n = self.models.len();
        let mut i: usize = 0;
        proof {
            assert(self.models@.skip(0) =~= self.models@);
        }
        while i < n
            invariant
                n == self.models@.len(),
                i <= n,
                model_lookup(self.models@, id@) == model_lookup(
                    self.models@.skip(i as int),
                    id@,
                ),
            decreases n - i,
        {
            proof {
                assert(self.models@.skip(i as int)[0] == self.models@[i as int]);
                assert(self.models@.skip(i as int).skip(1) =~= self.models@.skip(i + 1));
            }
            if str_eq(self.models[i].id.as_str(), id) {
                return Some(&self.models[i]);
            }
            i += 1;
        }
        proof {
            assert(self.models@.skip(n as int) =~= Seq::<ModelInfo>::empty());
        }
        None
    }
}

} // verus!
