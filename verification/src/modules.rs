//! What a task's fields ask for, field by field.

pub mod command;
pub mod debug;
pub mod include_tasks;
pub mod when;
