//! Game modes and the rule state machine that moves between the title
//! screen, play and the end screen.

use vstd::prelude::*;

verus! {

/// The screen the game is on. `Play` carries the selected hotbar slot.
#[derive(Clone, Copy, Debug, PartialEq, Eq, Structural)]
pub enum Rule {
    Title,
    Play(u8),
    End,
}

/// Keys pressed during one frame that the rules react to. `digit` is the
/// number key pressed, `0` for none.
#[derive(Clone, Copy, Debug)]
pub struct RuleKeys {
    pub key_l: bool,
    pub key_space: bool,
    pub key_q: bool,
    pub key_t: bool,
    pub key_s: bool,
    pub digit: u8,
}

/// What the rules decided for one frame: the next screen, and whether the
/// world is to be loaded, saved, or the game left.
#[derive(Clone, Copy, Debug, PartialEq, Eq, Structural)]
pub struct RuleStep {
    pub next: Rule,
    pub load: bool,
    pub save: bool,
    pub quit: bool,
}

/// The rules' decision for screen `r` and the keys `k`. On the title
/// screen, L loads the saved world and starts play, space starts play. In
/// play, Q ends the game, a number key from 1 to 5 selects that slot (and
/// stays in play), and T saves. On the end screen, Q leaves the game and S
/// saves, unless the game is being left.
pub open spec fn rule_step(r: Rule, k: RuleKeys) -> RuleStep {
    match r {
        Rule::Title => RuleStep {
            next: if k.key_l || k.key_space {
                Rule::Play(1)
            } else {
                Rule::Title
            },
            load: k.key_l,
            save: false,
            quit: false,
        },
        Rule::Play(i) => RuleStep {
            next: if 1 <= k.digit <= 5 {
                Rule::Play(k.digit)
            } else if k.key_q {
                Rule::End
            } else {
                Rule::Play(i)
            },
            load: false,
            save: k.key_t,
            quit: false,
        },
        Rule::End => RuleStep { next: Rule::End, load: false, save: k.key_s && !k.key_q, quit: k.key_q },
    }
}

impl Rule {
    /// One frame of the rules.
    pub fn step(&self, keys: &RuleKeys) -> (r: RuleStep)
        ensures
            r == rule_step(*self, *keys),
    {
        match self {
            Rule::Title => {
                let next = if keys.key_l || keys.key_space {
                    Rule::Play(1)
                } else {
                    Rule::Title
                };
                RuleStep { next, load: keys.key_l, save: false, quit: false }
            },
            Rule::Play(i) => {
                let mut next = Rule::Play(*i);
                if keys.key_q {
                    next = Rule::End;
                }
                if 1 <= keys.digit && keys.digit <= 5 {
                    next = Rule::Play(keys.digit);
                }
                RuleStep { next, load: false, save: keys.key_t, quit: false }
            },
            Rule::End => RuleStep {
                next: Rule::End,
                load: false,
                save: keys.key_s && !keys.key_q,
                quit: keys.key_q,
            },
        }
    }
}

/// The end screen is final: no keys lead away from it.
pub proof fn lemma_end_is_final(k: RuleKeys)
    ensures
        rule_step(Rule::End, k).next == Rule::End,
{
}

/// The top-level mode of a game.
#[derive(Clone, Copy, Debug, PartialEq, Eq, Structural)]
pub enum Mode {
    Title,
    Play(PlayMode),
    EndGame,
}

/// The part of play that is shown.
#[derive(Clone, Copy, Debug, PartialEq, Eq, Structural)]
pub enum PlayMode {
    Menu,
    Battle,
    Inventory,
}

/// Counts of the items a player carries.
#[derive(Clone, Copy, Debug, PartialEq, Eq, Structural)]
pub struct ItemInventory {
    pub bridge: i32,
    pub shovel: i32,
    pub ladder: i32,
}

/// Game state kept between sessions; it holds nothing yet.
#[derive(Clone, Copy, Debug, PartialEq, Eq, Structural)]
pub struct GameState {}

/// The stored form of a `GameState`.
#[derive(Clone, Copy, Debug, PartialEq, Eq, Structural)]
pub struct SerDeGameState {}

impl GameState {
    /// The stored form of this state.
    pub fn to_stored(&self) -> (r: SerDeGameState)
        ensures
            r == (SerDeGameState {  }),
    {
        SerDeGameState {  }
    }

    /// The state a stored form describes.
    pub fn from_stored(s: &SerDeGameState) -> (r: GameState)
        ensures
            r == (GameState {  }),
    {
        GameState {  }
    }
}

impl Mode {
    /// Advances the mode by one frame; no mode has per-frame work yet, so the
    /// mode is left as it is.
    pub fn update(&self) {
        match self {
            Mode::Title => {},
            Mode::Play(pm) => pm.update(),
            Mode::EndGame => {},
        }
    }

    /// Draws the mode; no mode draws anything yet.
    pub fn display(&self) {
        match self {
            Mode::Title => {},
            Mode::Play(pm) => pm.display(),
            Mode::EndGame => {},
        }
    }
}

impl PlayMode {
    /// Advances the play mode by one frame; none has per-frame work yet.
    pub fn update(&self) {
        match self {
            PlayMode::Menu => {},
            PlayMode::Inventory => {},
            PlayMode::Battle => {},
        }
    }

    /// Draws the play mode; none draws anything yet.
    pub fn display(&self) {
        match self {
            PlayMode::Menu => {},
            PlayMode::Inventory => {},
            PlayMode::Battle => {},
        }
    }
}

} // verus!
