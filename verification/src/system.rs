pub mod clock;
pub mod exec;
pub mod os;
pub mod tmux;
