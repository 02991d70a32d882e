//! Settings of the semantic index.
//!
//! A settings value is resolved by merging: the default file's content
//! first, then every user file in order, later files overriding earlier
//! ones field by field — a user file that leaves a field out inherits it.

use vstd::prelude::*;

verus! {

/// The resolved settings.
#[derive(Clone, Copy, Debug)]
pub struct SemanticIndexSettings {
    pub enabled: bool,
}

/// What one settings file says; an absent field inherits.
#[derive(Clone, Copy, Debug)]
pub struct SemanticIndexSettingsContent {
    pub enabled: Option<bool>,
}

impl Default for SemanticIndexSettingsContent {
    /// An empty settings file: every field inherits.
    fn default() -> (r: Self)
        ensures
            r.enabled is None,
    {
        SemanticIndexSettingsContent { enabled: None }
    }
}

/// The value of the `enabled` field after merging: the last file that sets
/// it wins, the default file counts as the first.
pub open spec fn merged_enabled(
    default_value: Option<bool>,
    user_values: Seq<Option<bool>>,
) -> Option<bool>
    decreases user_values.len(),
{
    if user_values.len() == 0 {
        default_value
    } else {
        match user_values.last() {
            Some(b) => Some(b),
            None => merged_enabled(default_value, user_values.drop_last()),
        }
    }
}

impl SemanticIndexSettings {
    /// Resolves the settings by merging the default content with every
    /// user content in order. Yields nothing when no file sets the one
    /// required field.
    pub fn load(
        default_value: &SemanticIndexSettingsContent,
        user_values: &Vec<SemanticIndexSettingsContent>,
    ) -> (r: Option<SemanticIndexSettings>)
        ensures
            ({
                let merged = merged_enabled(
                    default_value.enabled,
                    user_values@.map_values(|c: SemanticIndexSettingsContent| c.enabled),
                );
                match merged {
                    Some(enabled) => r matches Some(settings) && settings.enabled == enabled,
                    None => r is None,
                }
            }),
    {
        let ghost values = user_values@.map_values(
            |c: SemanticIndexSettingsContent| c.enabled,
        );
        let mut current: Option<bool> = default_value.enabled;
        let mut i: usize = 0;
        proof {
            assert(values.take(0) =~= Seq::<Option<bool>>::empty());
        }
        while i < user_values.len()
            invariant
                i <= user_values@.len(),
                values == user_values@.map_values(|c: SemanticIndexSettingsContent| c.enabled),
                current == merged_enabled(default_value.enabled, values.take(i as int)),
            decreases user_values@.len() - i,
        {
            match user_values[i].enabled {
                Some(enabled) => {
                    current = Some(enabled);
                },
                None => {},
            }
            proof {
                assert(values.take(i as int + 1).drop_last() =~= values.take(i as int));
                assert(values.take(i as int + 1).last() == values[i as int]);
            }
            i = i + 1;
        }
        proof {
            assert(values.take(values.len() as int) =~= values);
        }
        match current {
            Some(enabled) => Some(SemanticIndexSettings { enabled }),
            None => None,
        }
    }
}

} // verus!
