pub mod codec;
pub mod contract;
pub mod crypto;
pub mod error;
pub mod lemmas;
pub mod msg;
pub mod permit;
pub mod state;
pub mod store;
pub mod viewing_key;
