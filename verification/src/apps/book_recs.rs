//! The book recommendation applet: books in a friend's genres and by their authors.
use vstd::prelude::*;
use super::{AppletKind, FieldDef, field_views};
use crate::data::profile::Profile;

verus! {

/// The book recommendation applet: books in a friend's genres and by their authors.
pub struct BookRecsApplet;

impl BookRecsApplet {
    /// The applet this is.
    pub fn kind(&self) -> (res: AppletKind)
        ensures
            res == AppletKind::BookRecs,
    {
        AppletKind::BookRecs
    }

    /// The key the applet's profile is stored under.
    pub fn key(&self) -> (res: &'static str)
        ensures
            res@ == AppletKind::BookRecs.key_spec(),
    {
        AppletKind::BookRecs.key()
    }

    /// The applet's display name.
    pub fn name(&self) -> (res: &'static str)
        ensures
            res@ == AppletKind::BookRecs.label_spec(),
    {
        AppletKind::BookRecs.name()
    }

    /// The profile fields the applet asks for.
    pub fn fields(&self) -> (res: Vec<FieldDef>)
        ensures
            field_views(res@) == AppletKind::BookRecs.fields_spec(),
    {
        AppletKind::BookRecs.fields()
    }

    /// Whether `profile` unlocks the applet.
    pub fn is_unlocked(&self, profile: &Profile) -> (res: bool)
        ensures
            res == AppletKind::BookRecs.unlocked_by(profile@),
    {
        AppletKind::BookRecs.is_unlocked(profile)
    }
}

} // verus!
