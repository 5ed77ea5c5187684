pub mod error;
pub mod merkle;
pub mod state;
pub mod mint;
pub mod execute;
pub mod claim;
pub mod msg;
pub mod lemmas;
