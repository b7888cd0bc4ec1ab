//! Card definitions and per-card mutable state.
//!
//! A card is instantiated once from a [`CardInfo`] definition when a session
//! starts and then never destroyed: only its zone membership (tracked by the
//! session's zones) and its presentation flags change.

use crate::hand::Focused;
use crate::hovering::Hovered;
use vstd::prelude::*;

verus! {

/// Immutable gameplay statistics of a card definition.
#[derive(Clone, Copy, PartialEq, Eq, Structural, Debug)]
pub struct CardGameplayInfo {
    /// Crowd value the owner must have for the card to be legal to play.
    pub cast_crowd: u8,
    /// Minimum-resource stat shown on the card face.
    pub minimum_crowd: u8,
    /// Hit points the card enters play with.
    pub hp: u8,
    /// Attack power shown on the card face.
    pub power: u8,
}

/// A card definition: gameplay statistics plus presentation data.
///
/// `art` is an opaque reference into the embedding program's asset table; the
/// engine never interprets it.
#[derive(Clone, Copy, PartialEq, Eq, Debug)]
pub struct CardInfo {
    pub gameplay: CardGameplayInfo,
    pub name: &'static str,
    pub art: u32,
    pub flavor_text: Option<&'static str>,
}

/// Which side of a card the viewer is shown: `true` for the front face.
#[derive(Clone, Copy, PartialEq, Eq, Structural, Debug)]
pub struct ShowFront(pub bool);

/// Grayed-out presentation flag: `true` when the card is shown desaturated
/// because it is not currently legal to play.
#[derive(Clone, Copy, PartialEq, Eq, Structural, Debug)]
pub struct CardGray(pub bool);

/// A deck zone: card indices in draw order, the top of the deck at the end.
#[derive(Clone, PartialEq, Eq, Debug)]
pub struct Deck(pub Vec<usize>);

/// One instantiated card: its definition plus all per-session mutable state.
#[derive(Clone, Copy, PartialEq, Eq, Debug)]
pub struct Card {
    /// The definition this card was instantiated from.
    pub info: CardInfo,
    /// Current hit points; starts at `info.gameplay.hp`.
    pub current_hp: u8,
    /// Which face the viewer is shown.
    pub show_front: ShowFront,
    /// Derived legality flag: the card is in a hand and currently affordable.
    pub allowed: bool,
    /// Derived presentation flag, the inverse of `allowed` for hand cards.
    pub gray: CardGray,
    /// The pointer currently rests on this card.
    pub hovered: Hovered,
    /// This card is the focused card of the human player's hand.
    pub focused: Focused,
}

/// The decimal digit characters in order, so that digit `d` reads as
/// `digit_chars()[d]`.
pub open spec fn digit_chars() -> Seq<char> {
    seq!['0', '1', '2', '3', '4', '5', '6', '7', '8', '9']
}

/// The decimal rendering of `n`, without leading zeroes, for `n` up to
/// three digits.
pub open spec fn dec_str(n: int) -> Seq<char> {
    if n < 10 {
        seq![digit_chars()[n]]
    } else if n < 100 {
        seq![digit_chars()[n / 10], digit_chars()[n % 10]]
    } else {
        seq![digit_chars()[n / 100], digit_chars()[(n / 10) % 10], digit_chars()[n % 10]]
    }
}

/// The one-character string for the decimal digit `d`.
fn digit_str(d: u8) -> (r: &'static str)
    requires
        d < 10,
    ensures
        r@ == seq![digit_chars()[d as int]],
{
    proof {
        reveal_strlit("0");
        reveal_strlit("1");
        reveal_strlit("2");
        reveal_strlit("3");
        reveal_strlit("4");
        reveal_strlit("5");
        reveal_strlit("6");
        reveal_strlit("7");
        reveal_strlit("8");
        reveal_strlit("9");
    }
    match d {
        0 => "0",
        1 => "1",
        2 => "2",
        3 => "3",
        4 => "4",
        5 => "5",
        6 => "6",
        7 => "7",
        8 => "8",
        _ => "9",
    }
}

/// Append the decimal rendering of `n` to `out`.
pub(crate) fn push_decimal(out: &mut String, n: u8)
    ensures
        final(out)@ == old(out)@ + dec_str(n as int),
{
    let ghost base = out@;
    if n >= 100 {
        out.append(digit_str(n / 100));
    }
    if n >= 10 {
        out.append(digit_str((n / 10) % 10));
    }
    out.append(digit_str(n % 10));
    proof {
        if n >= 100 {
            assert(out@ =~= base + dec_str(n as int));
        } else if n >= 10 {
            assert(out@ =~= base + dec_str(n as int));
        } else {
            assert(out@ =~= base + dec_str(n as int));
        }
    }
}

/// The stats line shown on a card's front face: attack power and current
/// hit points, separated by a slash.
pub open spec fn spec_card_stats(c: Card) -> Seq<char> {
    dec_str(c.info.gameplay.power as int) + seq!['/'] + dec_str(c.current_hp as int)
}

/// The cost line shown on a card's front face: the minimum-resource stat
/// and the cast cost, separated by a slash.
pub open spec fn spec_card_crowd(c: Card) -> Seq<char> {
    dec_str(c.info.gameplay.minimum_crowd as int) + seq!['/'] + dec_str(
        c.info.gameplay.cast_crowd as int,
    )
}

/// Render the stats text of a card's front face: its power and its current
/// hit points.
pub fn update_card_stats(c: &Card) -> (r: String)
    ensures
        r@ == spec_card_stats(*c),
{
    let mut out = String::new();
    push_decimal(&mut out, c.info.gameplay.power);
    out.append("/");
    push_decimal(&mut out, c.current_hp);
    proof {
        reveal_strlit("/");
        assert(out@ =~= spec_card_stats(*c));
    }
    out
}

/// Render the cost text of a card's front face: its minimum-resource stat
/// and its cast cost.
pub fn update_card_crowd(c: &Card) -> (r: String)
    ensures
        r@ == spec_card_crowd(*c),
{
    let mut out = String::new();
    push_decimal(&mut out, c.info.gameplay.minimum_crowd);
    out.append("/");
    push_decimal(&mut out, c.info.gameplay.cast_crowd);
    proof {
        reveal_strlit("/");
        assert(out@ =~= spec_card_crowd(*c));
    }
    out
}

/// The two card tables agree on everything except possibly the legality and
/// grayed-out flags: same length, and card by card the same definition,
/// hit points, face and pointer markers.
pub open spec fn same_but_flags(a: Seq<Card>, b: Seq<Card>) -> bool {
    &&& a.len() == b.len()
    &&& forall|id: int|
        0 <= id < a.len() ==> (#[trigger] b[id]).info == a[id].info && b[id].current_hp
            == a[id].current_hp && b[id].show_front == a[id].show_front && b[id].hovered
            == a[id].hovered && b[id].focused == a[id].focused
}

/// The two card tables have the same length and, card by card, the same
/// definition and hit points.
pub open spec fn same_stats(a: Seq<Card>, b: Seq<Card>) -> bool {
    &&& a.len() == b.len()
    &&& forall|id: int|
        0 <= id < a.len() ==> (#[trigger] b[id]).info == a[id].info && b[id].current_hp
            == a[id].current_hp
}

impl Card {
    /// Instantiate a card from its definition, face down and unmarked.
    pub fn from_info(info: &CardInfo) -> (c: Card)
        ensures
            c == Card::spec_from_info(*info),
    {
        Card {
            info: *info,
            current_hp: info.gameplay.hp,
            show_front: ShowFront(false),
            allowed: false,
            gray: CardGray(false),
            hovered: Hovered(false),
            focused: Focused(false),
        }
    }

    /// `self` with only its shown face replaced.
    pub open spec fn with_face(self, front: bool) -> Card {
        Card {
            info: self.info,
            current_hp: self.current_hp,
            show_front: ShowFront(front),
            allowed: self.allowed,
            gray: self.gray,
            hovered: self.hovered,
            focused: self.focused,
        }
    }

    /// `self` with only its legality flag replaced.
    pub open spec fn with_allowed(self, b: bool) -> Card {
        Card {
            info: self.info,
            current_hp: self.current_hp,
            show_front: self.show_front,
            allowed: b,
            gray: self.gray,
            hovered: self.hovered,
            focused: self.focused,
        }
    }

    /// `self` with only its grayed-out flag replaced.
    pub open spec fn with_gray(self, g: bool) -> Card {
        Card {
            info: self.info,
            current_hp: self.current_hp,
            show_front: self.show_front,
            allowed: self.allowed,
            gray: CardGray(g),
            hovered: self.hovered,
            focused: self.focused,
        }
    }

    /// `self` with only its hover flag replaced.
    pub open spec fn with_hovered(self, h: bool) -> Card {
        Card {
            info: self.info,
            current_hp: self.current_hp,
            show_front: self.show_front,
            allowed: self.allowed,
            gray: self.gray,
            hovered: Hovered(h),
            focused: self.focused,
        }
    }

    /// `self` with only its focus flag replaced.
    pub open spec fn with_focused(self, f: bool) -> Card {
        Card {
            info: self.info,
            current_hp: self.current_hp,
            show_front: self.show_front,
            allowed: self.allowed,
            gray: self.gray,
            hovered: self.hovered,
            focused: Focused(f),
        }
    }

    /// `self` with the transient hand markers cleared: the legality flag,
    /// the focus marker and the grayed-out flag.
    pub open spec fn cleared(self) -> Card {
        Card {
            info: self.info,
            current_hp: self.current_hp,
            show_front: self.show_front,
            allowed: false,
            gray: CardGray(false),
            hovered: self.hovered,
            focused: Focused(false),
        }
    }

    /// The state a card reaches by being played: markers cleared, front up.
    pub open spec fn played(self) -> Card {
        self.cleared().with_face(true)
    }

    /// The card state that instantiation from `info` produces.
    pub open spec fn spec_from_info(info: CardInfo) -> Card {
        Card {
            info: info,
            current_hp: info.gameplay.hp,
            show_front: ShowFront(false),
            allowed: false,
            gray: CardGray(false),
            hovered: Hovered(false),
            focused: Focused(false),
        }
    }
}

} // verus!
