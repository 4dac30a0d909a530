//! Virtual-key codes of the keys that the layouts use.

use vstd::prelude::*;

verus! {

pub const KEY_A: u16 = 65;
pub const KEY_B: u16 = 66;
pub const KEY_C: u16 = 67;
pub const KEY_D: u16 = 68;
pub const KEY_E: u16 = 69;
pub const KEY_F: u16 = 70;
pub const KEY_G: u16 = 71;
pub const KEY_H: u16 = 72;
pub const KEY_I: u16 = 73;
pub const KEY_J: u16 = 74;
pub const KEY_K: u16 = 75;
pub const KEY_L: u16 = 76;
pub const KEY_M: u16 = 77;
pub const KEY_N: u16 = 78;
pub const KEY_O: u16 = 79;
pub const KEY_P: u16 = 80;
pub const KEY_Q: u16 = 81;
pub const KEY_R: u16 = 82;
pub const KEY_S: u16 = 83;
pub const KEY_T: u16 = 84;
pub const KEY_U: u16 = 85;
pub const KEY_V: u16 = 86;
pub const KEY_W: u16 = 87;
pub const KEY_X: u16 = 88;
pub const KEY_Y: u16 = 89;
pub const KEY_Z: u16 = 90;
pub const KEY_NUM0: u16 = 48;
pub const KEY_NUM1: u16 = 49;
pub const KEY_NUM2: u16 = 50;
pub const KEY_NUM3: u16 = 51;
pub const KEY_NUM4: u16 = 52;
pub const KEY_NUM5: u16 = 53;
pub const KEY_NUM6: u16 = 54;
pub const KEY_NUM7: u16 = 55;
pub const KEY_NUM8: u16 = 56;
pub const KEY_NUM9: u16 = 57;
pub const KEY_NP0: u16 = 96;
pub const KEY_NP2: u16 = 98;
pub const KEY_NP3: u16 = 99;
pub const KEY_NP5: u16 = 101;
pub const KEY_NP6: u16 = 102;
pub const KEY_NP8: u16 = 104;
pub const KEY_NP9: u16 = 105;
pub const KEY_NP_MULTIPLY: u16 = 106;
pub const KEY_NP_DECIMAL: u16 = 110;
pub const KEY_NP_DIVIDE: u16 = 111;
pub const KEY_F1: u16 = 112;
pub const KEY_F2: u16 = 113;
pub const KEY_F3: u16 = 114;
pub const KEY_F4: u16 = 115;
pub const KEY_F5: u16 = 116;
pub const KEY_F6: u16 = 117;
pub const KEY_F7: u16 = 118;
pub const KEY_F8: u16 = 119;
pub const KEY_F9: u16 = 120;
pub const KEY_F10: u16 = 121;
pub const KEY_SEMICOLON: u16 = 186;
pub const KEY_COMMA: u16 = 188;
pub const KEY_PERIOD: u16 = 190;
pub const KEY_SLASH: u16 = 191;

} // verus!
