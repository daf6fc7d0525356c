//! Host-side logic for playing PMD music data on a YMF288 board: the OPNA timer
//! model, the I/O trap that turns register writes into board packets, batch
//! statistics, the control-command language and the player's decisions.

pub mod packet;
pub mod opna;
pub mod emu;
pub mod board;
pub mod pipe;
pub mod control;
pub mod player;
