pub mod search;
pub mod text;

pub use search::truncate_with_ellipsis;
