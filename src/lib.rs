pub mod datetime;
pub mod display;
pub mod duration;
pub mod generator;
pub mod reminder;
pub mod render;
pub mod task;
pub mod text;

pub use datetime::{parse_date_time, parse_naive_date_time, DateTimeError, DateTimeParts};
pub use display::{DisplayLine, Emphasis, Label};
pub use duration::{parse_timedelta, DurationError, SECONDS_PER_DAY};
pub use generator::{reminder_tasks, reminders_to_tasks, CatchUpError};
pub use reminder::{Reminder, ReminderDisplay};
pub use render::{line_text, render_line};
pub use task::{complete_task, delete_outcome, CompletionError, DeleteError, NewTask, Task, TaskDisplay};
