//! Two small message handlers.
use vstd::prelude::*;

use crate::types::{Address, Callback};

verus! {

/// What goes back and forth between two players.
#[derive(Clone, Copy, Debug, PartialEq, Eq, Structural)]
pub struct Ball {
    pub ping: u32,
    pub pong: u32,
}

/// Plays the ball back.
pub fn handle_ping(from: Address, ball: Ball) -> (res: Ball)
    requires
        ball.pong < u32::MAX,
    ensures
        res.ping == ball.ping,
        res.pong == ball.pong + 1,
{
    Ball { ping: ball.ping, pong: ball.pong + 1 }
}

/// Answers any text with a greeting.
pub fn handle_test<F: Fn(String)>(from: Address, v: String, callback: Callback<F>)
    requires
        forall|s: String| s@ == "hello there"@ ==> call_requires(callback@, (s,)),
    ensures
        exists|s: String| s@ == "hello there"@ && #[trigger] call_ensures(callback@, (s,), ()),
{
    callback.call("hello there".to_owned());
}

} // verus!
