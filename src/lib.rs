//! A network probe engine: target expansion, probe packet construction,
//! reply classification and the bookkeeping of scan results.
pub mod addr;
pub mod bytes;
pub mod dns;
pub mod error;
pub mod frame;
pub mod interface;
pub mod os;
pub mod packet;
pub mod probe;
pub mod receiver;
pub mod results;
pub mod scanner;
pub mod traceroute;
pub mod target;
pub mod text;
