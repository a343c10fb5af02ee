use vstd::prelude::*;

verus! {

/// Everything a shortcut, a drag or a button can ask of the active window.
#[derive(Clone, Copy, Debug, PartialEq, Eq, Hash, Structural)]
pub enum Action {
    LeftHalf,
    RightHalf,
    TopHalf,
    BottomHalf,
    TopLeft,
    TopRight,
    BottomLeft,
    BottomRight,
    FirstThird,
    CenterThird,
    LastThird,
    FirstTwoThirds,
    CenterTwoThirds,
    LastTwoThirds,
    CenterHalf,
    Center,
    AlmostMaximize,
    MaximizeHeight,
    Grow,
    Shrink,
    MoveLeft,
    MoveRight,
    MoveUp,
    MoveDown,
    Maximize,
    Restore,
    /// Puts the active window back where it was before the last placement.
    Undo,
    NextMonitor,
    PreviousMonitor,
    /// Shows every shortcut at once. The odd one out: it teaches instead of
    /// moving a window, so no window has to be active for it to mean anything.
    ShowShortcuts,
}

impl Action {
    /// Every action, in the order the settings window lists them.
    pub const ALL: [Action; 30] = [
        Action::LeftHalf,
        Action::RightHalf,
        Action::TopHalf,
        Action::BottomHalf,
        Action::TopLeft,
        Action::TopRight,
        Action::BottomLeft,
        Action::BottomRight,
        Action::FirstThird,
        Action::CenterThird,
        Action::LastThird,
        Action::FirstTwoThirds,
        Action::CenterTwoThirds,
        Action::LastTwoThirds,
        Action::CenterHalf,
        Action::Center,
        Action::AlmostMaximize,
        Action::MaximizeHeight,
        Action::Grow,
        Action::Shrink,
        Action::MoveLeft,
        Action::MoveRight,
        Action::MoveUp,
        Action::MoveDown,
        Action::Maximize,
        Action::Restore,
        Action::Undo,
        Action::NextMonitor,
        Action::PreviousMonitor,
        Action::ShowShortcuts,
    ];

    /// The stable name of the action: its translation key and the spelling a
    /// settings document uses for it.
    pub open spec fn key(self) -> Seq<char> {
        match self {
            Action::LeftHalf => "left_half"@,
            Action::RightHalf => "right_half"@,
            Action::TopHalf => "top_half"@,
            Action::BottomHalf => "bottom_half"@,
            Action::TopLeft => "top_left"@,
            Action::TopRight => "top_right"@,
            Action::BottomLeft => "bottom_left"@,
            Action::BottomRight => "bottom_right"@,
            Action::FirstThird => "first_third"@,
            Action::CenterThird => "center_third"@,
            Action::LastThird => "last_third"@,
            Action::FirstTwoThirds => "first_two_thirds"@,
            Action::CenterTwoThirds => "center_two_thirds"@,
            Action::LastTwoThirds => "last_two_thirds"@,
            Action::CenterHalf => "center_half"@,
            Action::Center => "center"@,
            Action::AlmostMaximize => "almost_maximize"@,
            Action::MaximizeHeight => "maximize_height"@,
            Action::Grow => "grow"@,
            Action::Shrink => "shrink"@,
            Action::MoveLeft => "move_left"@,
            Action::MoveRight => "move_right"@,
            Action::MoveUp => "move_up"@,
            Action::MoveDown => "move_down"@,
            Action::Maximize => "maximize"@,
            Action::Restore => "restore"@,
            Action::Undo => "undo"@,
            Action::NextMonitor => "next_monitor"@,
            Action::PreviousMonitor => "previous_monitor"@,
            Action::ShowShortcuts => "show_shortcuts"@,
        }
    }

    pub fn label_key(self) -> (key: &'static str)
        ensures
            key@ == self.key(),
    {
        match self {
            Action::LeftHalf => "left_half",
            Action::RightHalf => "right_half",
            Action::TopHalf => "top_half",
            Action::BottomHalf => "bottom_half",
            Action::TopLeft => "top_left",
            Action::TopRight => "top_right",
            Action::BottomLeft => "bottom_left",
            Action::BottomRight => "bottom_right",
            Action::FirstThird => "first_third",
            Action::CenterThird => "center_third",
            Action::LastThird => "last_third",
            Action::FirstTwoThirds => "first_two_thirds",
            Action::CenterTwoThirds => "center_two_thirds",
            Action::LastTwoThirds => "last_two_thirds",
            Action::CenterHalf => "center_half",
            Action::Center => "center",
            Action::AlmostMaximize => "almost_maximize",
            Action::MaximizeHeight => "maximize_height",
            Action::Grow => "grow",
            Action::Shrink => "shrink",
            Action::MoveLeft => "move_left",
            Action::MoveRight => "move_right",
            Action::MoveUp => "move_up",
            Action::MoveDown => "move_down",
            Action::Maximize => "maximize",
            Action::Restore => "restore",
            Action::Undo => "undo",
            Action::NextMonitor => "next_monitor",
            Action::PreviousMonitor => "previous_monitor",
            Action::ShowShortcuts => "show_shortcuts",
        }
    }
}

} // verus!
