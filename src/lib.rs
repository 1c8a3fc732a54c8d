//! A local timeline store for a desktop companion: events, attachments,
//! reminders, daily exports and settings, with the reminder state machine,
//! the daily digest renderer and the input-activity samplers.
mod model;
pub mod text;
pub mod mime;
pub mod clock;
pub mod order;
pub mod digest;
pub mod store;
pub mod reminders;
pub mod tables;
pub mod export;
pub mod behavior;
pub mod laws;

pub use model::{
    Attachment, AttachmentKind, DailyExport, DropRecord, EventSource, EventType,
    EventWithAttachments, Reminder, ReminderStatus, Setting, StoreError, TimelineEvent,
};
