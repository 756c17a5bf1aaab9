//! A task list with a Pomodoro work timer: the task registry, the
//! work/break/lunch cycle, the deadline tracker and the dispatcher that
//! turns key presses and timer ticks into commands.

pub mod app;
pub mod data_manage;
pub mod date_manage;
pub mod notifications;
pub mod session;
pub mod stateful_list;
pub mod statistics;
pub mod text;
pub mod todo;
pub mod tui;
