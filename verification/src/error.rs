//! What can be wrong with a document.

use vstd::prelude::*;

verus! {

/// A reference document that lacks the structure the help text is cut from.
#[derive(Clone, Copy, Debug, PartialEq, Eq, Structural)]
pub enum HelpError {
    /// No heading starts the user guide.
    GuideStartMissing,
    /// No heading follows the user guide.
    GuideEndMissing,
    /// The heading that should follow the user guide stands before it.
    GuideEndBeforeStart,
    /// The user guide holds no table.
    GuideTableMissing,
    /// No blank line ends the table in the user guide.
    GuideTableEndMissing,
    /// No sentence introduces the keyboard shortcuts.
    ShortcutsMissing,
    /// No blank line ends the table of keyboard shortcuts.
    ShortcutsEndMissing,
    /// A row of the table of keyboard shortcuts has fewer than two columns.
    RowIncomplete,
}

impl HelpError {
    /// The sentence that tells what is wrong.
    pub open spec fn text(self) -> Seq<char> {
        match self {
            HelpError::GuideStartMissing => "Could not find user guide in README"@,
            HelpError::GuideEndMissing => "Could not find end of user guide in README"@,
            HelpError::GuideEndBeforeStart => "User guide ends before it starts in README"@,
            HelpError::GuideTableMissing => "Could not find keyboard shortcuts table in readme"@,
            HelpError::GuideTableEndMissing => "Could not find end of keyboard shortcuts table in readme"@,
            HelpError::ShortcutsMissing => "Couldn't find table of keyboard shortcuts in README"@,
            HelpError::ShortcutsEndMissing => "Couldn't find end of keyboard shortcuts table in README"@,
            HelpError::RowIncomplete => "Row of keyboard shortcuts table has too few columns in README"@,
        }
    }

    /// Tells what is wrong, in a sentence.
    pub fn message(&self) -> (message: &'static str)
        ensures
            message@ == self.text(),
    {
        match self {
            HelpError::GuideStartMissing => "Could not find user guide in README",
            HelpError::GuideEndMissing => "Could not find end of user guide in README",
            HelpError::GuideEndBeforeStart => "User guide ends before it starts in README",
            HelpError::GuideTableMissing => "Could not find keyboard shortcuts table in readme",
            HelpError::GuideTableEndMissing => "Could not find end of keyboard shortcuts table in readme",
            HelpError::ShortcutsMissing => "Couldn't find table of keyboard shortcuts in README",
            HelpError::ShortcutsEndMissing => "Couldn't find end of keyboard shortcuts table in README",
            HelpError::RowIncomplete => "Row of keyboard shortcuts table has too few columns in README",
        }
    }
}

} // verus!
