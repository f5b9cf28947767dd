//! The conversation prep applet: encyclopedia summaries of a friend's interests.
use vstd::prelude::*;
use super::{AppletKind, FieldDef, field_views};
use crate::data::profile::Profile;

verus! {

/// The conversation prep applet: encyclopedia summaries of a friend's interests.
pub struct WikiPrepApplet;

impl WikiPrepApplet {
    /// The applet this is.
    pub fn kind(&self) -> (res: AppletKind)
        ensures
            res == AppletKind::WikiPrep,
    {
        AppletKind::WikiPrep
    }

    /// The key the applet's profile is stored under.
    pub fn key(&self) -> (res: &'static str)
        ensures
            res@ == AppletKind::WikiPrep.key_spec(),
    {
        AppletKind::WikiPrep.key()
    }

    /// The applet's display name.
    pub fn name(&self) -> (res: &'static str)
        ensures
            res@ == AppletKind::WikiPrep.label_spec(),
    {
        AppletKind::WikiPrep.name()
    }

    /// The profile fields the applet asks for.
    pub fn fields(&self) -> (res: Vec<FieldDef>)
        ensures
            field_views(res@) == AppletKind::WikiPrep.fields_spec(),
    {
        AppletKind::WikiPrep.fields()
    }

    /// Whether `profile` unlocks the applet.
    pub fn is_unlocked(&self, profile: &Profile) -> (res: bool)
        ensures
            res == AppletKind::WikiPrep.unlocked_by(profile@),
    {
        AppletKind::WikiPrep.is_unlocked(profile)
    }
}

} // verus!
