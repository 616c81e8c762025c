//! What the member is told.

use crate::color::ParseError;
use vstd::prelude::*;

verus! {

/// One message to the channel in which the member wrote. It is sent once,
/// and whether it arrived changes nothing.
#[derive(Clone, Copy, Debug, PartialEq, Eq, Structural)]
pub enum Notice {
    /// No colour was written after the command.
    EmptyColor,
    /// What was written after the command is no colour.
    InvalidHex,
    /// Black was asked for and the darkest blue is used in its place.
    BlackReplaced,
    /// The roles of the guild could not be had.
    RolesUnavailable,
    /// The member could not be had.
    MemberUnavailable,
    /// A colour role of the member could not be deleted.
    RemoveFailed,
    /// The new colour role could not be created.
    CreateFailed,
    /// The new colour role could not be given to the member.
    AssignFailed,
}

impl Notice {
    /// The wording of the notice.
    pub open spec fn wording(self) -> Seq<char> {
        match self {
            Notice::EmptyColor => "Empty color"@,
            Notice::InvalidHex => "Invalid hex number, please use hex colors"@,
            Notice::BlackReplaced => {
                "Discord doesn't work with 0x000000 color, using the fallback color 0x0000001"@
            },
            Notice::RolesUnavailable => "Failed to get guild roles"@,
            Notice::MemberUnavailable => "Failed to get member"@,
            Notice::RemoveFailed => "Failed to remove member color"@,
            Notice::CreateFailed => "Failed to create a color role"@,
            Notice::AssignFailed => "Failed to add a new role to member"@,
        }
    }

    /// The text to send for the notice.
    pub fn text(self) -> (text: &'static str)
        ensures
            text@ == self.wording(),
    {
        match self {
            Notice::EmptyColor => "Empty color",
            Notice::InvalidHex => "Invalid hex number, please use hex colors",
            Notice::BlackReplaced => {
                "Discord doesn't work with 0x000000 color, using the fallback color 0x0000001"
            },
            Notice::RolesUnavailable => "Failed to get guild roles",
            Notice::MemberUnavailable => "Failed to get member",
            Notice::RemoveFailed => "Failed to remove member color",
            Notice::CreateFailed => "Failed to create a color role",
            Notice::AssignFailed => "Failed to add a new role to member",
        }
    }
}

/// The notice for a colour that could not be read.
pub open spec fn rejection(error: ParseError) -> Notice {
    match error {
        ParseError::EmptyColor => Notice::EmptyColor,
        ParseError::InvalidHex => Notice::InvalidHex,
    }
}

/// The notice for a colour that could not be read.
pub fn rejection_notice(error: ParseError) -> (notice: Notice)
    ensures
        notice == rejection(error),
{
    match error {
        ParseError::EmptyColor => Notice::EmptyColor,
        ParseError::InvalidHex => Notice::InvalidHex,
    }
}

} // verus!
