//! What every site plugin names about its site.

use vstd::prelude::*;

verus! {

/// A site plugin: its title, identifier, description and address.
pub trait SsufidPlugin {
    /// The site's title.
    fn title() -> &'static str;
    /// The plugin's identifier.
    fn identifier() -> &'static str;
    /// The site's description.
    fn description() -> &'static str;
    /// The site's address.
    fn base_url() -> &'static str;
}

impl SsufidPlugin for crate::academic_calendar::SsuAcademicCalendarPlugin {
    fn title() -> (s: &'static str)
        ensures
            s@ == crate::academic_calendar::TITLE@,
    {
        crate::academic_calendar::TITLE
    }

    fn identifier() -> (s: &'static str)
        ensures
            s@ == crate::academic_calendar::IDENTIFIER@,
    {
        crate::academic_calendar::IDENTIFIER
    }

    fn description() -> (s: &'static str)
        ensures
            s@ == crate::academic_calendar::DESCRIPTION@,
    {
        crate::academic_calendar::DESCRIPTION
    }

    fn base_url() -> (s: &'static str)
        ensures
            s@ == crate::academic_calendar::BASE_URL@,
    {
        crate::academic_calendar::BASE_URL
    }
}

} // verus!
