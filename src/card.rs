use vstd::prelude::*;

verus! {

/// The colour of a card; nightmares carry no colour and report `Void`.
#[derive(Clone, Copy, Debug, PartialEq, Eq, Structural, PartialOrd, Ord, Hash)]
pub enum Color {
    Red,
    Blue,
    Green,
    Yellow,
    Void,
}

/// The kind of a card.
#[derive(Clone, Copy, Debug, PartialEq, Eq, Structural, PartialOrd, Ord, Hash)]
pub enum Kind {
    Sun,
    Moon,
    Key,
    Door,
    Nightmare,
}

/// A card is a plain value: its colour and its kind.
#[derive(Clone, Copy, Debug, PartialEq, Eq, Structural)]
pub struct Card {
    pub color: Color,
    pub kind: Kind,
}

/// The four colours that doors and locations come in, in table order.
pub open spec fn spec_colors() -> Seq<Color> {
    seq![Color::Red, Color::Blue, Color::Green, Color::Yellow]
}

/// Position of a colour in a five-slot table.
pub open spec fn color_index(c: Color) -> int {
    match c {
        Color::Red => 0,
        Color::Blue => 1,
        Color::Green => 2,
        Color::Yellow => 3,
        Color::Void => 4,
    }
}

/// Position of a kind in a five-slot table.
pub open spec fn kind_index(k: Kind) -> int {
    match k {
        Kind::Sun => 0,
        Kind::Moon => 1,
        Kind::Key => 2,
        Kind::Door => 3,
        Kind::Nightmare => 4,
    }
}

impl Color {
    /// The playable colours, Red, Blue, Green and Yellow, in that order.
    pub fn colors() -> (r: Vec<Color>)
        ensures
            r@ == spec_colors(),
    {
        let r = vec![Color::Red, Color::Blue, Color::Green, Color::Yellow];
        assert(r@ =~= spec_colors());
        r
    }

    pub fn index(&self) -> (r: usize)
        ensures
            r as int == color_index(*self),
    {
        match self {
            Color::Red => 0,
            Color::Blue => 1,
            Color::Green => 2,
            Color::Yellow => 3,
            Color::Void => 4,
        }
    }
}

impl Kind {
    pub fn index(&self) -> (r: usize)
        ensures
            r as int == kind_index(*self),
    {
        match self {
            Kind::Sun => 0,
            Kind::Moon => 1,
            Kind::Key => 2,
            Kind::Door => 3,
            Kind::Nightmare => 4,
        }
    }
}

impl Card {
    /// Suns, moons and keys are locations: the only cards a hand may hold.
    pub open spec fn spec_is_location(self) -> bool {
        self.kind is Sun || self.kind is Moon || self.kind is Key
    }

    pub open spec fn is_door_of(self, color: Color) -> bool {
        self.kind is Door && self.color == color
    }

    pub fn get_color(&self) -> (r: Color)
        ensures
            r == self.color,
    {
        self.color
    }

    pub fn get_kind(&self) -> (r: Kind)
        ensures
            r == self.kind,
    {
        self.kind
    }

    pub fn is_location(&self) -> (r: bool)
        ensures
            r == self.spec_is_location(),
    {
        match self.kind {
            Kind::Sun | Kind::Moon | Kind::Key => true,
            _ => false,
        }
    }
}

pub fn sun(color: Color) -> (r: Card)
    ensures
        r == (Card { color, kind: Kind::Sun }),
{
    Card { color, kind: Kind::Sun }
}

pub fn moon(color: Color) -> (r: Card)
    ensures
        r == (Card { color, kind: Kind::Moon }),
{
    Card { color, kind: Kind::Moon }
}

pub fn key(color: Color) -> (r: Card)
    ensures
        r == (Card { color, kind: Kind::Key }),
{
    Card { color, kind: Kind::Key }
}

pub fn door(color: Color) -> (r: Card)
    ensures
        r == (Card { color, kind: Kind::Door }),
{
    Card { color, kind: Kind::Door }
}

/// The nightmare card; it has no colour of its own.
pub fn nightmare() -> (r: Card)
    ensures
        r == (Card { color: Color::Void, kind: Kind::Nightmare }),
{
    Card { color: Color::Void, kind: Kind::Nightmare }
}

} // verus!
