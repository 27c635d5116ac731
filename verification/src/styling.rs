//! Terminal styling: the escape sequences that colour a rendered diagnostic.

use vstd::prelude::*;
use crate::text::{decimal, push_decimal};

verus! {

pub const BLACK: u8 = 30;

pub const RED: u8 = 31;

pub const GREEN: u8 = 32;

pub const YELLOW: u8 = 33;

pub const BLUE: u8 = 34;

pub const PURPLE: u8 = 35;

pub const CYAN: u8 = 36;

pub const WHITE: u8 = 37;

pub const LIGHT_BLACK: u8 = 90;

pub const LIGHT_RED: u8 = 91;

pub const LIGHT_GREEN: u8 = 92;

pub const LIGHT_YELLOW: u8 = 93;

pub const LIGHT_BLUE: u8 = 94;

pub const LIGHT_PURPLE: u8 = 95;

pub const LIGHT_CYAN: u8 = 96;

pub const LIGHT_WHITE: u8 = 97;

pub const PLAIN: u8 = 0;

pub const BOLD: u8 = 1;

pub const DIM: u8 = 2;

pub const UNDERLINE: u8 = 4;

pub const BLINKING: u8 = 5;

pub const REVERSED: u8 = 7;

/// A change of terminal style.
#[derive(Clone, Copy, Debug, PartialEq, Eq, Structural)]
pub enum Fmt {
    /// Sets the decoration (plain, bold, ...).
    Decor(u8),
    /// Sets the colour.
    Color(u8),
    /// Sets decoration and colour at once.
    DecorColor(u8, u8),
    /// Back to the terminal's default style.
    Reset,
}

impl Fmt {
    /// The escape sequence that asks the terminal for this style.
    pub open spec fn spec_code(self) -> Seq<char> {
        match self {
            Fmt::Decor(decor) => "\u{001b}["@ + decimal(decor as nat) + "m"@,
            Fmt::Color(color) => "\u{001b}[;"@ + decimal(color as nat) + "m"@,
            Fmt::DecorColor(decor, color) => "\u{001b}["@ + decimal(decor as nat) + ";"@ + decimal(
                color as nat,
            ) + "m"@,
            Fmt::Reset => "\u{001b}[0;0m"@,
        }
    }

    /// The escape sequence that asks the terminal for this style.
    pub fn code(&self) -> (r: String)
        ensures
            r@ == self.spec_code(),
    {
        match self {
            Fmt::Decor(decor) => {
                let mut s = "\u{001b}[".to_owned();
                push_decimal(&mut s, *decor as u128);
                s.append("m");
                s
            },
            Fmt::Color(color) => {
                let mut s = "\u{001b}[;".to_owned();
                push_decimal(&mut s, *color as u128);
                s.append("m");
                s
            },
            Fmt::DecorColor(decor, color) => {
                let mut s = "\u{001b}[".to_owned();
                push_decimal(&mut s, *decor as u128);
                s.append(";");
                push_decimal(&mut s, *color as u128);
                s.append("m");
                s
            },
            Fmt::Reset => "\u{001b}[0;0m".to_owned(),
        }
    }
}

} // verus!
