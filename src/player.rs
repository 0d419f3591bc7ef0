use vstd::prelude::*;

use crate::nickname::Nickname;

verus! {

/// What a seated player is made of, as plain values.
pub ghost struct PlayerView {
    pub id: u128,
    pub nickname: Seq<char>,
    pub stack: u32,
}

/// The occupant of one seat.
#[derive(Debug, Clone)]
pub struct Player {
    id: u128,
    nickname: Nickname,
    stack: u32,
}

impl View for Player {
    type V = PlayerView;

    closed spec fn view(&self) -> PlayerView {
        PlayerView { id: self.id, nickname: self.nickname@, stack: self.stack }
    }
}

impl Player {
    /// A player with a positive stack.
    pub fn new(id: u128, nickname: Nickname, stack: u32) -> (r: Player)
        requires
            stack > 0,
        ensures
            r@ == (PlayerView { id, nickname: nickname@, stack }),
    {
        Player { id, nickname, stack }
    }

    pub fn id(&self) -> (r: u128)
        ensures
            r == self@.id,
    {
        self.id
    }
}

} // verus!
