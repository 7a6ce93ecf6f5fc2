pub mod error;
pub mod steg;
pub mod util;
pub mod pipeline;
