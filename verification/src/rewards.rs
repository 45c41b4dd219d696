//! The fixed reward tables: what a kind of action earns and how much CO2 it
//! is taken to save. Each amount depends on the kind of action alone.

use vstd::prelude::*;

verus! {

/// Reward of a reported action of the given kind.
pub open spec fn action_reward(action_type: Seq<char>) -> int {
    if action_type == "reciclaje"@ {
        10
    } else if action_type == "transporte_verde"@ {
        15
    } else if action_type == "ahorro_agua"@ {
        8
    } else if action_type == "agricultura_sostenible"@ {
        25
    } else if action_type == "educacion_ambiental"@ {
        20
    } else {
        5
    }
}

/// CO2 that a reported action of the given kind is taken to save.
pub open spec fn action_co2(action_type: Seq<char>) -> int {
    if action_type == "reciclaje"@ {
        2
    } else if action_type == "transporte_verde"@ {
        5
    } else if action_type == "ahorro_agua"@ {
        1
    } else if action_type == "agricultura_sostenible"@ {
        8
    } else if action_type == "educacion_ambiental"@ {
        3
    } else {
        1
    }
}

/// Tokens minted for an ecological action of the given kind.
pub open spec fn eco_reward(action_type: Seq<char>) -> int {
    if action_type == "reciclaje"@ {
        10
    } else if action_type == "transporte_verde"@ {
        15
    } else if action_type == "ahorro_agua"@ {
        8
    } else if action_type == "agricultura_sostenible"@ {
        25
    } else if action_type == "educacion_ambiental"@ {
        20
    } else if action_type == "reforestacion"@ {
        30
    } else if action_type == "limpieza_publica"@ {
        12
    } else if action_type == "compostaje"@ {
        18
    } else {
        5
    }
}

/// The largest reward of a reported action.
pub const MAX_ACTION_REWARD: i128 = 25;

/// The largest amount of CO2 that one reported action saves.
pub const MAX_ACTION_CO2: i128 = 8;

/// The largest reward of a reported action.
pub open spec fn max_action_reward() -> int {
    MAX_ACTION_REWARD as int
}

/// The largest amount of CO2 that one reported action saves.
pub open spec fn max_action_co2() -> int {
    MAX_ACTION_CO2 as int
}

/// Every reward of the action table lies between 5 and the largest one, and
/// every CO2 amount between 1 and the largest one.
pub proof fn lemma_action_amounts_bounded(action_type: Seq<char>)
    ensures
        5 <= action_reward(action_type) <= max_action_reward(),
        1 <= action_co2(action_type) <= max_action_co2(),
{
}

} // verus!
