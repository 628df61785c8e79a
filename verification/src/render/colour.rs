//! Colour attribute codes for console cells: 16 foreground codes and 16
//! background codes (a background code is the matching foreground code
//! shifted left by four bits). Codes combine by bitwise or.

use vstd::prelude::*;

verus! {

pub const FG_BLACK: u16 = 0x0000;

pub const FG_DARK_BLUE: u16 = 0x0001;

pub const FG_DARK_GREEN: u16 = 0x0002;

pub const FG_DARK_CYAN: u16 = 0x0003;

pub const FG_DARK_RED: u16 = 0x0004;

pub const FG_DARK_MAGENTA: u16 = 0x0005;

pub const FG_DARK_YELLOW: u16 = 0x0006;

pub const FG_GREY: u16 = 0x0007;

pub const FG_DARK_GREY: u16 = 0x0008;

pub const FG_BLUE: u16 = 0x0009;

pub const FG_GREEN: u16 = 0x000A;

pub const FG_CYAN: u16 = 0x000B;

pub const FG_RED: u16 = 0x000C;

pub const FG_MAGENTA: u16 = 0x000D;

pub const FG_YELLOW: u16 = 0x000E;

pub const FG_WHITE: u16 = 0x000F;

pub const BG_BLACK: u16 = 0x0000;

pub const BG_DARK_BLUE: u16 = 0x0010;

pub const BG_DARK_GREEN: u16 = 0x0020;

pub const BG_DARK_CYAN: u16 = 0x0030;

pub const BG_DARK_RED: u16 = 0x0040;

pub const BG_DARK_MAGENTA: u16 = 0x0050;

pub const BG_DARK_YELLOW: u16 = 0x0060;

pub const BG_GREY: u16 = 0x0070;

pub const BG_DARK_GREY: u16 = 0x0080;

pub const BG_BLUE: u16 = 0x0090;

pub const BG_GREEN: u16 = 0x00A0;

pub const BG_CYAN: u16 = 0x00B0;

pub const BG_RED: u16 = 0x00C0;

pub const BG_MAGENTA: u16 = 0x00D0;

pub const BG_YELLOW: u16 = 0x00E0;

pub const BG_WHITE: u16 = 0x00F0;

} // verus!
