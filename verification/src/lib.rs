//! Self-service display colours for the members of a guild.
//!
//! A member writes `.color-set` and a colour in hexadecimal to be shown in
//! that colour, or `.color-reset` to give the colour up. The colour is a
//! role of the guild that the member holds, named `color_bot_`, the member's
//! name, `_` and the colour as it was written. The library reads the
//! message, finds the colour roles that the member holds, and says which
//! are to be deleted and which role is to be created and given to the
//! member.
//!
//! The library makes no call to the guild. It hands out one request at a
//! time and takes the answer to it, so that the caller decides how the guild
//! is reached.
//!
//! - [`text`]: comparing strings by their characters.
//! - [`color`]: colours and their hexadecimal notation.
//! - [`command`]: telling the commands in a message.
//! - [`roster`]: roles, members, and which roles are a member's colour roles.
//! - [`notice`]: what the member is told.
//! - [`reconcile`]: the work on one command, step by step.
//! - [`laws`]: what holds of the steps of a whole command.
//! - [`guild`]: what a command leaves behind in the guild.

pub mod color;
pub mod command;
pub mod guild;
pub mod laws;
pub mod notice;
pub mod reconcile;
pub mod roster;
pub mod text;
