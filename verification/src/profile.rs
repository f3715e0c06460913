//! The profile overlay's navigation: three sections visited in a cycle.

use vstd::prelude::*;

verus! {

/// A section of the profile overlay.
#[derive(Clone, Copy, PartialEq, Eq, Debug, Structural)]
pub enum ProfileSection {
    Profile,
    Stats,
    Commands,
}

/// The position of a section in the overlay's navigation list.
pub open spec fn section_position(s: ProfileSection) -> nat {
    match s {
        ProfileSection::Profile => 0,
        ProfileSection::Stats => 1,
        ProfileSection::Commands => 2,
    }
}

/// The section at position `i` modulo 3.
pub open spec fn section_at(i: nat) -> ProfileSection {
    if i % 3 == 0 {
        ProfileSection::Profile
    } else if i % 3 == 1 {
        ProfileSection::Stats
    } else {
        ProfileSection::Commands
    }
}

impl ProfileSection {
    /// The section's title in the navigation list.
    pub fn label(self) -> (l: &'static str)
        ensures
            self == ProfileSection::Profile ==> l@ == "Profile"@,
            self == ProfileSection::Stats ==> l@ == "Stats"@,
            self == ProfileSection::Commands ==> l@ == "Commands"@,
    {
        match self {
            ProfileSection::Profile => "Profile",
            ProfileSection::Stats => "Stats",
            ProfileSection::Commands => "Commands",
        }
    }

    /// All sections in navigation order.
    pub fn all() -> (a: [ProfileSection; 3])
        ensures
            a@ == seq![ProfileSection::Profile, ProfileSection::Stats, ProfileSection::Commands],
    {
        let a = [ProfileSection::Profile, ProfileSection::Stats, ProfileSection::Commands];
        assert(a@ =~= seq![ProfileSection::Profile, ProfileSection::Stats, ProfileSection::Commands]);
        a
    }

    /// The section's position in `all()`.
    pub fn index(self) -> (i: usize)
        ensures
            i == section_position(self),
            Self::all_spec()[i as int] == self,
    {
        match self {
            ProfileSection::Profile => 0,
            ProfileSection::Stats => 1,
            ProfileSection::Commands => 2,
        }
    }

    /// All sections in navigation order.
    pub open spec fn all_spec() -> Seq<ProfileSection> {
        seq![ProfileSection::Profile, ProfileSection::Stats, ProfileSection::Commands]
    }
}

/// The profile overlay's state: the open section and whether the logout
/// button has the focus.
#[derive(Clone, Copy, Debug)]
pub struct ProfileState {
    pub section: ProfileSection,
    pub logout_sel: bool,
}

impl Default for ProfileState {
    fn default() -> (s: Self)
        ensures
            s.section == ProfileSection::Profile,
            !s.logout_sel,
    {
        ProfileState { section: ProfileSection::Profile, logout_sel: false }
    }
}

impl ProfileState {
    /// Moves to the following section (after the last comes the first) and
    /// takes the focus off the logout button.
    pub fn next_section(&mut self)
        ensures
            final(self).section == section_at(section_position(old(self).section) + 1),
            !final(self).logout_sel,
    {
        self.section = match self.section {
            ProfileSection::Profile => ProfileSection::Stats,
            ProfileSection::Stats => ProfileSection::Commands,
            ProfileSection::Commands => ProfileSection::Profile,
        };
        self.logout_sel = false;
    }

    /// Moves to the preceding section (before the first comes the last) and
    /// takes the focus off the logout button.
    pub fn prev_section(&mut self)
        ensures
            final(self).section == section_at(section_position(old(self).section) + 2),
            !final(self).logout_sel,
    {
        self.section = match self.section {
            ProfileSection::Profile => ProfileSection::Commands,
            ProfileSection::Stats => ProfileSection::Profile,
            ProfileSection::Commands => ProfileSection::Stats,
        };
        self.logout_sel = false;
    }
}

/// Going to the next section and then back to the previous one, or the
/// other way round, returns to the section one started from; three steps
/// in the same direction also return there.
pub proof fn lemma_section_cycle(s: ProfileSection)
    ensures
        section_at(section_position(section_at(section_position(s) + 1)) + 2) == s,
        section_at(section_position(section_at(section_position(s) + 2)) + 1) == s,
        section_at(section_position(section_at(section_position(section_at(section_position(s) + 1)) + 1)) + 1) == s,
{
}

} // verus!
