pub mod keys;
pub mod machine;
pub mod model;
pub mod report;
pub mod state;
pub mod update;

pub use state::App;
pub use update::refresh_filter;
