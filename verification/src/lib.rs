//! Verified core of the beancell-holo firmware: the command line (argument
//! splitting, routing, line editing with history, line-ending normalization
//! and what each command does), the spinning display's protocol (HTTP and
//! WebSocket framing, reply parsing, status, access-point discovery), the
//! motor (quadrature decoding, homing, commands and the limit guard), and the
//! station Wi-Fi (credential records, control decisions and reports).

pub mod text;
pub mod scan;
pub mod display;
pub mod cli;
pub mod motor;
pub mod wifi;
