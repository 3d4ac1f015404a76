use vstd::prelude::*;

verus! {

pub const SETFPS: u8 = 0x40;
pub const NOP: u8 = 0x41;
pub const CTRL_CHANGE: u8 = 0x43;
pub const CTRL_CHANGE_ACK: u8 = 0x44;
pub const CTRLR_SWAPNOTIF: u8 = 0x68;
pub const CTRLR_TAKE: u8 = 0x70;
pub const CTRLR_DROP: u8 = 0x71;
pub const CTRLR_DUPE: u8 = 0x72;
pub const CTRLR_SWAP: u8 = 0x78;
pub const REQUEST_LIST: u8 = 0x7F;
pub const LOADSTATE: u8 = 0x80;
pub const REQUEST_STATE: u8 = 0x81;
pub const TEXT: u8 = 0x90;
pub const SERVERTEXT: u8 = 0x93;
pub const ECHO: u8 = 0x94;
pub const INTEGRITY: u8 = 0x95;
pub const INTEGRITY_RES: u8 = 0x96;
pub const SETNICK: u8 = 0x98;
pub const PLAYERJOINED: u8 = 0xA0;
pub const PLAYERLEFT: u8 = 0xA1;
pub const YOUJOINED: u8 = 0xB0;
pub const YOULEFT: u8 = 0xB1;
pub const NICKCHANGED: u8 = 0xB8;
pub const LIST: u8 = 0xC0;
pub const SET_MEDIA: u8 = 0xD0;
pub const CTRLR_TAKE_NOTIF: u8 = 0xF0;
pub const CTRLR_DROP_NOTIF: u8 = 0xF1;
pub const CTRLR_DUPE_NOTIF: u8 = 0xF2;
pub const QUIT: u8 = 0xFF;

} // verus!
