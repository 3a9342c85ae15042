//! Players: identity, position, collected boosts, and elimination state.

use vstd::prelude::*;

verus! {

/// Display colors a player can pick for its glyph.
#[derive(PartialEq, Eq, Structural, Clone, Copy, Debug)]
pub enum Color {
    Black,
    White,
    Red,
    Green,
    Blue,
    Yellow,
    Magenta,
    Cyan,
}

/// A position on the grid: row and column, zero-based.
#[derive(PartialEq, Eq, Structural, Clone, Copy, Debug)]
pub struct Place {
    pub row: usize,
    pub col: usize,
}

/// One participant of a match.
///
/// The eliminated flag is set by the turn loop once the player has no legal
/// move left; the engine itself only reports legal moves.
#[derive(Clone)]
pub struct User {
    username: String,
    color: Color,
    symbol: char,
    place: Place,
    boosts: u8,
    has_lost: bool,
    is_bot: bool,
}

impl User {
    /// The player's name, as a sequence of characters.
    pub closed spec fn name_spec(&self) -> Seq<char> {
        self.username@
    }

    pub closed spec fn color_spec(&self) -> Color {
        self.color
    }

    pub closed spec fn symbol_spec(&self) -> char {
        self.symbol
    }

    pub closed spec fn place_spec(&self) -> Place {
        self.place
    }

    pub closed spec fn boosts_spec(&self) -> u8 {
        self.boosts
    }

    pub closed spec fn has_lost_spec(&self) -> bool {
        self.has_lost
    }

    pub closed spec fn is_bot_spec(&self) -> bool {
        self.is_bot
    }

    /// A fresh player: not eliminated, no boosts, placed at the origin until
    /// the board assigns a corner.
    pub fn new(username: String, color: Color, symbol: char, is_bot: bool) -> (r: User)
        ensures
            r.name_spec() == username@,
            r.color_spec() == color,
            r.symbol_spec() == symbol,
            r.place_spec() == (Place { row: 0, col: 0 }),
            r.boosts_spec() == 0,
            !r.has_lost_spec(),
            r.is_bot_spec() == is_bot,
    {
        User {
            username,
            color,
            symbol,
            place: Place { row: 0, col: 0 },
            boosts: 0,
            has_lost: false,
            is_bot,
        }
    }

    pub fn username(&self) -> (r: String)
        ensures
            r@ == self.name_spec(),
    {
        self.username.clone()
    }

    pub fn color(&self) -> (r: Color)
        ensures
            r == self.color_spec(),
    {
        self.color
    }

    pub fn symbol(&self) -> (r: char)
        ensures
            r == self.symbol_spec(),
    {
        self.symbol
    }

    pub fn is_bot(&self) -> (r: bool)
        ensures
            r == self.is_bot_spec(),
    {
        self.is_bot
    }

    pub fn place(&self) -> (r: Place)
        ensures
            r == self.place_spec(),
    {
        self.place
    }

    pub fn set_place(&mut self, place: Place)
        ensures
            final(self).place_spec() == place,
            final(self).name_spec() == old(self).name_spec(),
            final(self).color_spec() == old(self).color_spec(),
            final(self).symbol_spec() == old(self).symbol_spec(),
            final(self).boosts_spec() == old(self).boosts_spec(),
            final(self).has_lost_spec() == old(self).has_lost_spec(),
            final(self).is_bot_spec() == old(self).is_bot_spec(),
    {
        self.place = place;
    }

    pub fn has_lost(&self) -> (r: bool)
        ensures
            r == self.has_lost_spec(),
    {
        self.has_lost
    }

    pub fn set_has_lost(&mut self, has_lost: bool)
        ensures
            final(self).has_lost_spec() == has_lost,
            final(self).name_spec() == old(self).name_spec(),
            final(self).color_spec() == old(self).color_spec(),
            final(self).symbol_spec() == old(self).symbol_spec(),
            final(self).place_spec() == old(self).place_spec(),
            final(self).boosts_spec() == old(self).boosts_spec(),
            final(self).is_bot_spec() == old(self).is_bot_spec(),
    {
        self.has_lost = has_lost;
    }

    pub fn boosts(&self) -> (r: u8)
        ensures
            r == self.boosts_spec(),
    {
        self.boosts
    }

    /// Collect one boost.
    pub fn add_boost(&mut self)
        requires
            old(self).boosts_spec() < 255,
        ensures
            final(self).boosts_spec() == old(self).boosts_spec() + 1,
            final(self).name_spec() == old(self).name_spec(),
            final(self).color_spec() == old(self).color_spec(),
            final(self).symbol_spec() == old(self).symbol_spec(),
            final(self).place_spec() == old(self).place_spec(),
            final(self).has_lost_spec() == old(self).has_lost_spec(),
            final(self).is_bot_spec() == old(self).is_bot_spec(),
    {
        self.boosts = self.boosts + 1;
    }

    /// Give up one boost, as a wall penalty. The count is clamped at zero:
    /// a player without boosts stays at zero rather than underflowing.
    pub fn remove_boost(&mut self)
        ensures
            final(self).boosts_spec() == (if old(self).boosts_spec() > 0 {
                (old(self).boosts_spec() - 1) as u8
            } else {
                0u8
            }),
            final(self).name_spec() == old(self).name_spec(),
            final(self).color_spec() == old(self).color_spec(),
            final(self).symbol_spec() == old(self).symbol_spec(),
            final(self).place_spec() == old(self).place_spec(),
            final(self).has_lost_spec() == old(self).has_lost_spec(),
            final(self).is_bot_spec() == old(self).is_bot_spec(),
    {
        if self.boosts > 0 {
            self.boosts = self.boosts - 1;
        }
    }
}

/// Whether some player of the roster already carries this name.
pub fn is_username_taken(username: &str, users: &Vec<User>) -> (r: bool)
    ensures
        r == exists|i: int|
            0 <= i < users@.len() && (#[trigger] users@[i]).name_spec() == username@,
{
    let mut i: usize = 0;
    while i < users.len()
        invariant
            i <= users@.len(),
            forall|k: int| 0 <= k < i ==> (#[trigger] users@[k]).name_spec() != username@,
        decreases users@.len() - i,
    {
        let name_i = users[i].username();
        if crate::text::str_eq(name_i.as_str(), username) {
            return true;
        }
        i = i + 1;
    }
    false
}

/// Whether some player of the roster already carries this color.
pub fn is_color_taken(color: &Color, users: &Vec<User>) -> (r: bool)
    ensures
        r == exists|i: int| 0 <= i < users@.len() && (#[trigger] users@[i]).color_spec() == *color,
{
    let mut i: usize = 0;
    while i < users.len()
        invariant
            i <= users@.len(),
            forall|k: int| 0 <= k < i ==> (#[trigger] users@[k]).color_spec() != *color,
        decreases users@.len() - i,
    {
        if users[i].color() == *color {
            return true;
        }
        i = i + 1;
    }
    false
}

/// Whether some player of the roster already carries this symbol.
pub fn is_symbol_taken(symbol: char, users: &Vec<User>) -> (r: bool)
    ensures
        r == exists|i: int| 0 <= i < users@.len() && (#[trigger] users@[i]).symbol_spec() == symbol,
{
    let mut i: usize = 0;
    while i < users.len()
        invariant
            i <= users@.len(),
            forall|k: int| 0 <= k < i ==> (#[trigger] users@[k]).symbol_spec() != symbol,
        decreases users@.len() - i,
    {
        if users[i].symbol() == symbol {
            return true;
        }
        i = i + 1;
    }
    false
}

/// The color picked by a one-based menu index.
pub open spec fn color_of_index(matcher: int) -> Color {
    if matcher == 1 {
        Color::Black
    } else if matcher == 2 {
        Color::White
    } else if matcher == 3 {
        Color::Blue
    } else if matcher == 4 {
        Color::Red
    } else if matcher == 5 {
        Color::Green
    } else if matcher == 6 {
        Color::Yellow
    } else if matcher == 7 {
        Color::Magenta
    } else {
        Color::Cyan
    }
}

/// Maps a one-based menu index to its color.
pub fn get_color(matcher: usize) -> (c: Color)
    requires
        1 <= matcher <= 8,
    ensures
        c == color_of_index(matcher as int),
{
    match matcher {
        1 => Color::Black,
        2 => Color::White,
        3 => Color::Blue,
        4 => Color::Red,
        5 => Color::Green,
        6 => Color::Yellow,
        7 => Color::Magenta,
        _ => Color::Cyan,
    }
}

} // verus!
