//! The help panel: a one-line summary of the keys, or the full list.

use vstd::prelude::*;

verus! {

/// Which form of the help is shown.
#[derive(Clone, Copy, Debug, PartialEq, Eq, Structural)]
pub enum HelpState {
    Full,
    Oneline,
}

/// The number of lines of the full help.
pub const FULL_INSTRUCTIONS_HEIGHT: u16 = 10;

/// The help panel's lines, its height in lines, and its form.
pub struct Instructions {
    instructions: Vec<&'static str>,
    height: u16,
    state: HelpState,
}

/// What the help panel holds, as a reader sees it.
pub struct InstructionsView {
    pub line_count: nat,
    pub height: u16,
    pub state: HelpState,
}

impl View for Instructions {
    type V = InstructionsView;

    closed spec fn view(&self) -> InstructionsView {
        InstructionsView {
            line_count: self.instructions@.len(),
            height: self.height,
            state: self.state,
        }
    }
}

impl Instructions {
    #[verifier::type_invariant]
    spec fn shape(&self) -> bool {
        &&& self.height as nat == self.instructions@.len()
        &&& (self.state == HelpState::Oneline ==> self.height == 1)
        &&& (self.state == HelpState::Full ==> self.height == FULL_INSTRUCTIONS_HEIGHT)
    }

    /// The one-line summary.
    pub fn oneline() -> (r: Instructions)
        ensures
            r@.state == HelpState::Oneline,
            r@.height == 1,
            r@.line_count == 1,
    {
        Instructions {
            instructions: vec![
                "ESC => save & quit | CTRL+H => open help instructions | CTRL+C => change color",
            ],
            height: 1,
            state: HelpState::Oneline,
        }
    }

    /// The full list of keys.
    pub fn full() -> (r: Instructions)
        ensures
            r@.state == HelpState::Full,
            r@.height == FULL_INSTRUCTIONS_HEIGHT,
            r@.line_count == FULL_INSTRUCTIONS_HEIGHT,
    {
        Instructions {
            instructions: vec![
                "ESC => save & quit",
                "CTRL+H => close help instructions",
                "CTRL+C => change color",
                "↑ => one line up | ↓/ENTER => one line down",
                "ENTER at last line => create new transaction",
                "SHIFT+TAB => previous-column",
                "TAB => next-column & insert recommended text",
                "PgUp => go to first row | PgDn => go to last row",
                "CTRL+D => delete selected row",
                "DEL at end of text => remove recommended text",
            ],
            height: FULL_INSTRUCTIONS_HEIGHT,
            state: HelpState::Full,
        }
    }

    /// Switches between the summary and the full list.
    pub fn toggle(&mut self)
        ensures
            old(self)@.state == HelpState::Full ==> final(self)@.state == HelpState::Oneline
                && final(self)@.height == 1 && final(self)@.line_count == 1,
            old(self)@.state == HelpState::Oneline ==> final(self)@.state == HelpState::Full
                && final(self)@.height == FULL_INSTRUCTIONS_HEIGHT && final(self)@.line_count
                == FULL_INSTRUCTIONS_HEIGHT,
    {
        match self.state {
            HelpState::Full => *self = Self::oneline(),
            HelpState::Oneline => *self = Self::full(),
        }
    }

    /// The height the panel takes: its lines and two border lines.
    pub fn get_height(&self) -> (r: u16)
        ensures
            r == self@.height + 2,
    {
        proof {
            use_type_invariant(self);
        }
        self.height + 2
    }

    /// The lines to show.
    pub fn lines(&self) -> (r: &Vec<&'static str>)
        ensures
            r@.len() == self@.line_count,
    {
        &self.instructions
    }
}

} // verus!
