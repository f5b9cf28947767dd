//! The birthday applet: countdown, upcoming age and zodiac sign.
use vstd::prelude::*;
use super::{AppletKind, FieldDef, field_views};
use crate::data::profile::Profile;

verus! {

/// The birthday applet: countdown, upcoming age and zodiac sign.
pub struct BirthdayApplet;

impl BirthdayApplet {
    /// The applet this is.
    pub fn kind(&self) -> (res: AppletKind)
        ensures
            res == AppletKind::Birthday,
    {
        AppletKind::Birthday
    }

    /// The key the applet's profile is stored under.
    pub fn key(&self) -> (res: &'static str)
        ensures
            res@ == AppletKind::Birthday.key_spec(),
    {
        AppletKind::Birthday.key()
    }

    /// The applet's display name.
    pub fn name(&self) -> (res: &'static str)
        ensures
            res@ == AppletKind::Birthday.label_spec(),
    {
        AppletKind::Birthday.name()
    }

    /// The profile fields the applet asks for.
    pub fn fields(&self) -> (res: Vec<FieldDef>)
        ensures
            field_views(res@) == AppletKind::Birthday.fields_spec(),
    {
        AppletKind::Birthday.fields()
    }

    /// Whether `profile` unlocks the applet.
    pub fn is_unlocked(&self, profile: &Profile) -> (res: bool)
        ensures
            res == AppletKind::Birthday.unlocked_by(profile@),
    {
        AppletKind::Birthday.is_unlocked(profile)
    }
}

} // verus!
