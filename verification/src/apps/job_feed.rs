//! The job feed applet: remote jobs that match a friend's desired role and skills.
use vstd::prelude::*;
use super::{AppletKind, FieldDef, field_views};
use crate::data::profile::Profile;

verus! {

/// The job feed applet: remote jobs that match a friend's desired role and skills.
pub struct JobFeedApplet;

impl JobFeedApplet {
    /// The applet this is.
    pub fn kind(&self) -> (res: AppletKind)
        ensures
            res == AppletKind::JobFeed,
    {
        AppletKind::JobFeed
    }

    /// The key the applet's profile is stored under.
    pub fn key(&self) -> (res: &'static str)
        ensures
            res@ == AppletKind::JobFeed.key_spec(),
    {
        AppletKind::JobFeed.key()
    }

    /// The applet's display name.
    pub fn name(&self) -> (res: &'static str)
        ensures
            res@ == AppletKind::JobFeed.label_spec(),
    {
        AppletKind::JobFeed.name()
    }

    /// The profile fields the applet asks for.
    pub fn fields(&self) -> (res: Vec<FieldDef>)
        ensures
            field_views(res@) == AppletKind::JobFeed.fields_spec(),
    {
        AppletKind::JobFeed.fields()
    }

    /// Whether `profile` unlocks the applet.
    pub fn is_unlocked(&self, profile: &Profile) -> (res: bool)
        ensures
            res == AppletKind::JobFeed.unlocked_by(profile@),
    {
        AppletKind::JobFeed.is_unlocked(profile)
    }
}

} // verus!
