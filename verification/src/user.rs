//! Public information about users.

use vstd::prelude::*;

use crate::text::copy_text;

verus! {

/// The part of a user's profile that other users may see.
#[derive(Debug, PartialEq, Eq)]
pub struct UserSummary {
    /// Identifier of the user.
    pub id: String,
    /// Unique name chosen by the user, if one was chosen.
    pub username: Option<String>,
    /// Name under which the user is shown, if one was given.
    pub display_name: Option<String>,
}

/// A user summary as a mathematical value.
pub struct UserSummaryView {
    pub id: Seq<char>,
    pub username: Option<Seq<char>>,
    pub display_name: Option<Seq<char>>,
}

impl View for UserSummary {
    type V = UserSummaryView;

    open spec fn view(&self) -> UserSummaryView {
        UserSummaryView {
            id: self.id@,
            username: self.username.deep_view(),
            display_name: self.display_name.deep_view(),
        }
    }
}

impl DeepView for UserSummary {
    type V = UserSummaryView;

    open spec fn deep_view(&self) -> UserSummaryView {
        self@
    }
}

impl Clone for UserSummary {
    fn clone(&self) -> (copy: UserSummary)
        ensures
            copy@ == self@,
    {
        UserSummary {
            id: self.id.clone(),
            username: copy_text(&self.username),
            display_name: copy_text(&self.display_name),
        }
    }
}

} // verus!
