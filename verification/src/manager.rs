//! What a run of matches is configured with.
use vstd::prelude::*;
use crate::config::EngineConfig;
use crate::worker::RolloutWorker;

verus! {

/// How matches are played: how their boards are built, who plays, when a match
/// is cut short, and how many matches are asked for.
#[derive(Debug)]
pub struct RolloutConfig {
    pub engine_config: EngineConfig,
    /// The first player's identifier and the identifiers opponents are drawn
    /// from.
    pub agent_ids: (i32, Vec<i32>),
    pub max_rounds: u32,
    pub evaluation_mode: bool,
    pub max_matches: u32,
}

impl Clone for RolloutConfig {
    fn clone(&self) -> (copy: RolloutConfig)
        ensures
            copy.engine_config == self.engine_config,
            copy.agent_ids.0 == self.agent_ids.0,
            copy.agent_ids.1@ == self.agent_ids.1@,
            copy.max_rounds == self.max_rounds,
            copy.evaluation_mode == self.evaluation_mode,
            copy.max_matches == self.max_matches,
    {
        RolloutConfig {
            engine_config: self.engine_config,
            agent_ids: (self.agent_ids.0, self.agent_ids.1.clone()),
            max_rounds: self.max_rounds,
            evaluation_mode: self.evaluation_mode,
            max_matches: self.max_matches,
        }
    }
}

/// The workers of a run.
pub struct RolloutManager {
    pub instances: Vec<RolloutWorker>,
}

} // verus!
