use vstd::prelude::*;
use vstd::string::StringExecFns;

use crate::model::{spec_apply_move, Move, PlayerMove};
use crate::server::GameState;

verus! {

/// What the game server's registration response names as this agent's
/// id: the integer `id` field of the JSON document, if the document
/// parses and carries one. A function of the response bytes alone.
pub uninterp spec fn spec_player_id_of(body: Seq<u8>) -> Option<i64>;

/// Relies on serde_json's `from_slice`, `Value::get` and
/// `Value::as_i64`: parsing the response body and reading its integer
/// `id` field is deterministic in the bytes, named `spec_player_id_of`.
#[verifier::external_body]
fn parse_player_id(body: &[u8]) -> (r: Option<i64>)
    ensures
        r == spec_player_id_of(body@),
{
    match serde_json::from_slice::<serde_json::Value>(body) {
        Ok(value) => value.get("id").and_then(serde_json::Value::as_i64),
        Err(_) => None,
    }
}

/// The quoted, escaped form of a string as std's `Debug` formatting
/// writes it: a function of the characters alone.
pub uninterp spec fn spec_debug_quoted(s: Seq<char>) -> Seq<char>;

/// Relies on std's `Debug` formatting of `str` (`format!("{:?}", s)`),
/// which vstd does not specify: the quoted form named `spec_debug_quoted`.
#[verifier::external_body]
fn quoted(s: &str) -> (r: String)
    ensures
        r@ == spec_debug_quoted(s@),
{
    format!("{:?}", s)
}

/// The JSON document a registration call posts: the agent's advertised
/// name and its reachable address, each in quoted form.
pub open spec fn spec_registration_body(name: Seq<char>, endpoint: Seq<char>) -> Seq<char> {
    "{ \"name\": "@ + spec_debug_quoted(name) + ", \"endpoint\": "@ + spec_debug_quoted(endpoint)
        + " }"@
}

/// The JSON document a move submission posts: the single-letter code
/// of the chosen direction under the `move` key.
pub open spec fn spec_play_body(direction: Move) -> Seq<char> {
    match direction {
        Move::North => "{\"move\":\"N\"}"@,
        Move::West => "{\"move\":\"W\"}"@,
        Move::South => "{\"move\":\"S\"}"@,
        Move::East => "{\"move\":\"E\"}"@,
        Move::Stay => "{\"move\":\"O\"}"@,
    }
}

/// The outbound half of the protocol: it knows where the game server
/// lives and prepares the two documents posted to it. The transport
/// itself — sockets, background tasks — is the embedding
/// application's affair; this layer computes what is sent and decides
/// what each response means for the game state.
pub struct Mediator {
    base_uri: String,
}

impl Mediator {
    /// The game server's base address.
    pub closed spec fn base(&self) -> Seq<char> {
        self.base_uri@
    }

    pub fn new(base_uri: &str) -> (m: Mediator)
        ensures
            m.base() == base_uri@,
    {
        Mediator { base_uri: String::from_str(base_uri) }
    }

    /// The address registration is posted to.
    pub fn register_uri(&self) -> (r: String)
        ensures
            r@ == self.base() + "/player"@,
    {
        let mut uri = self.base_uri.clone();
        uri.append("/player");
        uri
    }

    /// The address moves are posted to.
    pub fn play_uri(&self) -> (r: String)
        ensures
            r@ == self.base() + "/map"@,
    {
        let mut uri = self.base_uri.clone();
        uri.append("/map");
        uri
    }

    /// The JSON body of the registration call.
    pub fn registration_body(&self, name: &str, endpoint: &str) -> (r: String)
        ensures
            r@ == spec_registration_body(name@, endpoint@),
    {
        let mut body = String::from_str("{ \"name\": ");
        let quoted_name = quoted(name);
        body.append(quoted_name.as_str());
        body.append(", \"endpoint\": ");
        let quoted_endpoint = quoted(endpoint);
        body.append(quoted_endpoint.as_str());
        body.append(" }");
        body
    }

    /// The JSON body of the move-submission call.
    pub fn play_body(&self, direction: Move) -> (r: String)
        ensures
            r@ == spec_play_body(direction),
    {
        match direction {
            Move::North => String::from_str("{\"move\":\"N\"}"),
            Move::West => String::from_str("{\"move\":\"W\"}"),
            Move::South => String::from_str("{\"move\":\"S\"}"),
            Move::East => String::from_str("{\"move\":\"E\"}"),
            Move::Stay => String::from_str("{\"move\":\"O\"}"),
        }
    }
}

/// What a registration response does to the game state: when the body
/// carries an integer `id` field, that id is recorded — once; any
/// malformed body leaves the state untouched. Returns the id the body
/// carried, so the caller can log the outcome.
pub fn handle_registration_response(state: &mut GameState, body: &[u8]) -> (r: Option<i64>)
    ensures
        r == spec_player_id_of(body@),
        match r {
            Some(id) => {
                &&& *old(state) is Registring ==> *final(state) == GameState::Registred(id)
                &&& !(*old(state) is Registring) ==> *final(state) == *old(state)
            },
            None => *final(state) == *old(state),
        },
{
    match parse_player_id(body) {
        Some(player_id) => {
            state.record_registration(player_id);
            Some(player_id)
        },
        None => None,
    }
}

/// What a move-submission response does to the game state: on a
/// "no content" success the agent trusts its own submission and
/// applies the move locally, under its own id at submission time; on
/// any other outcome — and in any state but Playing — nothing changes
/// and the next authoritative tick settles the matter.
pub fn handle_play_response(state: &mut GameState, no_content: bool, direction: Move)
    ensures
        !no_content ==> *final(state) == *old(state),
        no_content && !(*old(state) is Playing) ==> *final(state) == *old(state),
        no_content && *old(state) is Playing ==> {
            &&& *final(state) is Playing
            &&& (*final(state))->Playing_0.player_id == (*old(state))->Playing_0.player_id
            &&& (*final(state))->Playing_0.map@ == spec_apply_move(
                (*old(state))->Playing_0.map@,
                (PlayerMove { id: (*old(state))->Playing_0.player_id, direction: direction }),
            )
        },
{
    if no_content {
        match state {
            GameState::Playing(game) => {
                let id: i64 = game.player_id;
                game.map.apply_move(&PlayerMove { id, direction });
            },
            _ => {},
        }
    }
}

} // verus!
