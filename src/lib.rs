pub mod address;
pub mod chars;
pub mod fields;
pub mod laws;
pub mod text;
pub mod time;
pub mod whitespace;
pub mod words;

pub use address::{Address, AddrSpec, Mailbox};
pub use fields::{
    bcc, cc, comments, date, fields, from, in_reply_to, keywords, message_id, received, references,
    reply_to, resent_bcc, resent_cc, resent_date, resent_from, resent_message_id, resent_sender,
    resent_to, return_path, sender, subject, to, trace, unknown, Field, ReceivedToken, TraceField,
};
pub use text::{Error, Res, Text};
pub use time::{DateTime, Day, Month};
