//! macOS virtual key codes and Carbon modifier flags used by the bindings.

use vstd::prelude::*;

verus! {

/// Carbon `cmdKey` (bit 8).
pub const CMD_KEY: u32 = 0x100;
/// Carbon `shiftKey` (bit 9).
pub const SHIFT_KEY: u32 = 0x200;
/// Carbon `optionKey` (bit 11).
pub const OPTION_KEY: u32 = 0x800;
/// Carbon `controlKey` (bit 12).
pub const CONTROL_KEY: u32 = 0x1000;

pub const K_VK_A: u32 = 0x00;
pub const K_VK_S: u32 = 0x01;
pub const K_VK_D: u32 = 0x02;
pub const K_VK_F: u32 = 0x03;
pub const K_VK_H: u32 = 0x04;
pub const K_VK_G: u32 = 0x05;
pub const K_VK_Z: u32 = 0x06;
pub const K_VK_X: u32 = 0x07;
pub const K_VK_C: u32 = 0x08;
pub const K_VK_V: u32 = 0x09;
pub const K_VK_B: u32 = 0x0B;
pub const K_VK_Q: u32 = 0x0C;
pub const K_VK_W: u32 = 0x0D;
pub const K_VK_E: u32 = 0x0E;
pub const K_VK_R: u32 = 0x0F;
pub const K_VK_Y: u32 = 0x10;
pub const K_VK_T: u32 = 0x11;
pub const K_VK_1: u32 = 0x12;
pub const K_VK_2: u32 = 0x13;
pub const K_VK_3: u32 = 0x14;
pub const K_VK_4: u32 = 0x15;
pub const K_VK_6: u32 = 0x16;
pub const K_VK_5: u32 = 0x17;
pub const K_VK_EQUAL: u32 = 0x18;
pub const K_VK_9: u32 = 0x19;
pub const K_VK_7: u32 = 0x1A;
pub const K_VK_MINUS: u32 = 0x1B;
pub const K_VK_8: u32 = 0x1C;
pub const K_VK_0: u32 = 0x1D;
pub const K_VK_O: u32 = 0x1F;
pub const K_VK_U: u32 = 0x20;
pub const K_VK_I: u32 = 0x22;
pub const K_VK_P: u32 = 0x23;
pub const K_VK_L: u32 = 0x25;
pub const K_VK_J: u32 = 0x26;
pub const K_VK_K: u32 = 0x28;
pub const K_VK_N: u32 = 0x2D;
pub const K_VK_M: u32 = 0x2E;
pub const K_VK_RETURN: u32 = 0x24;
pub const K_VK_TAB: u32 = 0x30;
pub const K_VK_SPACE: u32 = 0x31;
pub const K_VK_DELETE: u32 = 0x33;
pub const K_VK_ESCAPE: u32 = 0x35;
pub const K_VK_LEFT_ARROW: u32 = 0x7B;
pub const K_VK_RIGHT_ARROW: u32 = 0x7C;
pub const K_VK_DOWN_ARROW: u32 = 0x7D;
pub const K_VK_UP_ARROW: u32 = 0x7E;

} // verus!
