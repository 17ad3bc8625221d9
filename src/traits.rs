use vstd::prelude::*;
use crate::action::{action_bytes, bytes_result_view, json_action_fields, serialize_action_json};
use crate::state::{GameAction, GamePublicState};

verus! {

/// A move type that can be read from bytes and encoded from JSON.
pub trait TurboActionSerialization: Sized {
    /// What `deserialize` makes of `bytes`: the move and the rest, or a refusal.
    spec fn deserialized(bytes: Seq<u8>) -> Option<(Self, Seq<u8>)>;

    /// What `serialize_json` makes of a JSON text.
    spec fn serialized(json: Seq<char>) -> Result<Seq<u8>, &'static str>;

    fn deserialize(action: &[u8]) -> (r: Result<(Self, &[u8]), &'static str>)
        ensures
            match Self::deserialized(action@) {
                None => r is Err,
                Some((a, rest)) => r matches Ok((x, y)) && x == a && y@ == rest,
            },
    ;

    fn serialize_json(json_str: &str) -> (r: Result<Vec<u8>, &'static str>)
        ensures
            bytes_result_view(r) == Self::serialized(json_str@),
    ;
}

/// A state that knows whether the game has ended.
pub trait HasTerminalState {
    spec fn terminal(&self) -> bool;

    fn is_terminal(&self) -> (r: bool)
        ensures
            r == self.terminal(),
    ;
}

/// A state that lists the moves played.
pub trait HasActions {
    spec fn played(&self) -> Seq<u8>;

    fn actions(&self) -> (r: Vec<u8>)
        ensures
            r@ == self.played(),
    ;
}

impl TurboActionSerialization for GameAction {
    /// The first byte is the column.
    open spec fn deserialized(bytes: Seq<u8>) -> Option<(GameAction, Seq<u8>)> {
        if bytes.len() == 0 {
            None
        } else {
            Some((GameAction::DropPiece(bytes[0]), bytes.subrange(1, bytes.len() as int)))
        }
    }

    /// A text that is no JSON is refused; otherwise `action_bytes` of its fields.
    open spec fn serialized(json: Seq<char>) -> Result<Seq<u8>, &'static str> {
        match json_action_fields(json) {
            None => Err("Invalid JSON"),
            Some(f) => action_bytes(f),
        }
    }

    fn deserialize(action: &[u8]) -> (r: Result<(GameAction, &[u8]), &'static str>) {
        GameAction::deserialize(action)
    }

    fn serialize_json(json_str: &str) -> (r: Result<Vec<u8>, &'static str>) {
        serialize_action_json(json_str)
    }
}

impl HasTerminalState for GamePublicState {
    open spec fn terminal(&self) -> bool {
        self.winner != 0
    }

    fn is_terminal(&self) -> (r: bool) {
        GamePublicState::is_terminal(self)
    }
}

impl HasActions for GamePublicState {
    open spec fn played(&self) -> Seq<u8> {
        self.moves@
    }

    fn actions(&self) -> (r: Vec<u8>) {
        GamePublicState::actions(self)
    }
}

} // verus!
