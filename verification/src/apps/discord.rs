//! The Discord applet: direct-message history and sending.
use vstd::prelude::*;
use super::{AppletKind, FieldDef, field_views};
use crate::data::profile::Profile;

verus! {

/// The Discord applet: direct-message history and sending.
pub struct DiscordApplet;

impl DiscordApplet {
    /// The applet this is.
    pub fn kind(&self) -> (res: AppletKind)
        ensures
            res == AppletKind::Discord,
    {
        AppletKind::Discord
    }

    /// The key the applet's profile is stored under.
    pub fn key(&self) -> (res: &'static str)
        ensures
            res@ == AppletKind::Discord.key_spec(),
    {
        AppletKind::Discord.key()
    }

    /// The applet's display name.
    pub fn name(&self) -> (res: &'static str)
        ensures
            res@ == AppletKind::Discord.label_spec(),
    {
        AppletKind::Discord.name()
    }

    /// The profile fields the applet asks for.
    pub fn fields(&self) -> (res: Vec<FieldDef>)
        ensures
            field_views(res@) == AppletKind::Discord.fields_spec(),
    {
        AppletKind::Discord.fields()
    }

    /// Whether `profile` unlocks the applet.
    pub fn is_unlocked(&self, profile: &Profile) -> (res: bool)
        ensures
            res == AppletKind::Discord.unlocked_by(profile@),
    {
        AppletKind::Discord.is_unlocked(profile)
    }
}

} // verus!
