use vstd::prelude::*;

verus! {

/// Which screen the game shows, and so which part of a frame runs.
#[derive(Debug, Clone, Copy, PartialEq, Eq, Structural)]
pub enum Screen {
    /// The title menu; `cursor` 0 is PLAY, 1 is UPGRADES.
    Title { cursor: usize },
    /// The upgrade shop, opened from the title menu.
    Shop,
    /// A run in progress.
    Playing,
    /// A run paused by the player.
    Paused,
    /// A run paused by an event card; it can be dismissed once its delay is over.
    EventPaused,
    /// The run has ended.
    GameOver,
}

/// The inputs of one frame that move between screens.
#[derive(Debug, Clone, Copy, PartialEq, Eq, Structural)]
pub struct MenuInput {
    pub up: bool,
    pub down: bool,
    /// Space, Enter or a tap.
    pub confirm: bool,
    /// The shop asked to close (Escape, or a tap above its list).
    pub back: bool,
    /// Space, Enter, R or a tap on the game-over screen.
    pub restart: bool,
    /// P, Escape or a tap on the pause button.
    pub pause: bool,
    /// The event card on screen has been shown long enough to dismiss.
    pub event_ready: bool,
}

/// What the rest of the frame does after the screen step.
#[derive(Debug, Clone, Copy, PartialEq, Eq, Structural)]
pub enum FrameAction {
    /// Nothing more this frame.
    Idle,
    /// Run the shop's own controls (cursor and purchase).
    Shop,
    /// Apply the permanent upgrades and start the first run.
    StartRun,
    /// Reset everything and start a new run.
    RestartRun,
    /// Advance the run by one frame.
    RunFrame,
}

pub open spec fn spec_title_cursor(cursor: usize, input: MenuInput) -> usize {
    if input.up {
        0
    } else if input.down {
        1
    } else {
        cursor
    }
}

/// One frame of screen logic: the next screen and what the frame does.
pub open spec fn spec_step_screen(screen: Screen, input: MenuInput) -> (Screen, FrameAction) {
    match screen {
        Screen::Shop => if input.back {
            (Screen::Title { cursor: 1 }, FrameAction::Idle)
        } else {
            (Screen::Shop, FrameAction::Shop)
        },
        Screen::Title { cursor } => {
            let c = spec_title_cursor(cursor, input);
            if !input.confirm {
                (Screen::Title { cursor: c }, FrameAction::Idle)
            } else if c == 1 {
                (Screen::Shop, FrameAction::Idle)
            } else {
                (Screen::Playing, FrameAction::StartRun)
            }
        },
        Screen::GameOver => if input.restart {
            (Screen::Playing, FrameAction::RestartRun)
        } else {
            (Screen::GameOver, FrameAction::Idle)
        },
        Screen::Playing => if input.pause {
            (Screen::Paused, FrameAction::Idle)
        } else {
            (Screen::Playing, FrameAction::RunFrame)
        },
        Screen::Paused => if input.pause {
            (Screen::Playing, FrameAction::RunFrame)
        } else {
            (Screen::Paused, FrameAction::Idle)
        },
        Screen::EventPaused => if input.pause && input.event_ready {
            (Screen::Playing, FrameAction::RunFrame)
        } else {
            (Screen::EventPaused, FrameAction::Idle)
        },
    }
}

/// Moves between screens for one frame. The shop closes back to the title
/// menu with UPGRADES selected; on the title menu, down selects UPGRADES and
/// up selects PLAY (up wins when both are held), and confirming opens the
/// shop or starts a run. The game-over screen waits for a restart. During a
/// run the pause key toggles the pause, and the run advances in the same
/// frame it is resumed; an event card ignores the key until it is ready.
pub fn step_screen(screen: Screen, input: MenuInput) -> (r: (Screen, FrameAction))
    ensures
        r == spec_step_screen(screen, input),
{
    match screen {
        Screen::Shop => {
            if input.back {
                (Screen::Title { cursor: 1 }, FrameAction::Idle)
            } else {
                (Screen::Shop, FrameAction::Shop)
            }
        },
        Screen::Title { cursor } => {
            let mut c = cursor;
            if input.down {
                c = 1;
            }
            if input.up {
                c = 0;
            }
            if !input.confirm {
                (Screen::Title { cursor: c }, FrameAction::Idle)
            } else if c == 1 {
                (Screen::Shop, FrameAction::Idle)
            } else {
                (Screen::Playing, FrameAction::StartRun)
            }
        },
        Screen::GameOver => {
            if input.restart {
                (Screen::Playing, FrameAction::RestartRun)
            } else {
                (Screen::GameOver, FrameAction::Idle)
            }
        },
        Screen::Playing => {
            if input.pause {
                (Screen::Paused, FrameAction::Idle)
            } else {
                (Screen::Playing, FrameAction::RunFrame)
            }
        },
        Screen::Paused => {
            if input.pause {
                (Screen::Playing, FrameAction::RunFrame)
            } else {
                (Screen::Paused, FrameAction::Idle)
            }
        },
        Screen::EventPaused => {
            if input.pause && input.event_ready {
                (Screen::Playing, FrameAction::RunFrame)
            } else {
                (Screen::EventPaused, FrameAction::Idle)
            }
        },
    }
}

/// A run only advances on a frame that ends with the run on screen.
pub proof fn run_frames_only_while_playing(screen: Screen, input: MenuInput)
    ensures
        spec_step_screen(screen, input).1 == FrameAction::RunFrame ==> spec_step_screen(
            screen,
            input,
        ).0 == Screen::Playing,
        spec_step_screen(screen, input).1 == FrameAction::RunFrame ==> (screen == Screen::Playing
            || screen == Screen::Paused || screen == Screen::EventPaused),
{
}

/// Pressing pause twice during a run comes back to the run, and the second
/// press lets the frame advance.
pub proof fn pause_twice_resumes(first: MenuInput, second: MenuInput)
    requires
        first.pause,
        second.pause,
    ensures
        spec_step_screen(Screen::Playing, first) == (Screen::Paused, FrameAction::Idle),
        spec_step_screen(spec_step_screen(Screen::Playing, first).0, second) == (
            Screen::Playing,
            FrameAction::RunFrame,
        ),
{
}

/// While paused and the pause key is not pressed, nothing moves; an event card
/// stays up until it is both ready and dismissed.
pub proof fn pause_holds_the_run(input: MenuInput)
    ensures
        !input.pause ==> spec_step_screen(Screen::Paused, input) == (
            Screen::Paused,
            FrameAction::Idle,
        ),
        !(input.pause && input.event_ready) ==> spec_step_screen(Screen::EventPaused, input) == (
            Screen::EventPaused,
            FrameAction::Idle,
        ),
{
}

/// The game-over screen is left only by a restart, which starts a new run.
pub proof fn game_over_waits_for_restart(input: MenuInput)
    ensures
        spec_step_screen(Screen::GameOver, input).0 != Screen::GameOver <==> input.restart,
        input.restart ==> spec_step_screen(Screen::GameOver, input) == (
            Screen::Playing,
            FrameAction::RestartRun,
        ),
{
}

/// Opening the shop from the title and closing it again returns to the title
/// menu with UPGRADES still selected.
pub proof fn shop_round_trip(cursor: usize, open: MenuInput, close: MenuInput)
    requires
        open.confirm,
        spec_title_cursor(cursor, open) == 1,
        close.back,
    ensures
        spec_step_screen((Screen::Title { cursor }), open).0 == Screen::Shop,
        spec_step_screen(Screen::Shop, close).0 == (Screen::Title { cursor: 1 }),
{
}

/// Confirming on the title menu starts a run when PLAY is selected and opens
/// the shop when UPGRADES is: the selection is UPGRADES exactly when up is
/// not pressed and either down is pressed or the cursor already stood on
/// UPGRADES (1).
pub proof fn title_confirm_plays_or_shops(cursor: usize, input: MenuInput)
    requires
        input.confirm,
    ensures
        (!input.up && (input.down || cursor == 1)) ==> spec_step_screen(
            (Screen::Title { cursor }),
            input,
        ) == (Screen::Shop, FrameAction::Idle),
        !(!input.up && (input.down || cursor == 1)) ==> spec_step_screen(
            (Screen::Title { cursor }),
            input,
        ) == (Screen::Playing, FrameAction::StartRun),
{
}

/// Without confirming, the title menu stays, with the cursor moved: up
/// selects PLAY (0), else down selects UPGRADES (1), else it stays put.
pub proof fn title_cursor_moves_without_confirm(cursor: usize, input: MenuInput)
    requires
        !input.confirm,
    ensures
        spec_step_screen((Screen::Title { cursor }), input) == (
            Screen::Title {
                cursor: if input.up {
                    0
                } else if input.down {
                    1
                } else {
                    cursor
                },
            },
            FrameAction::Idle,
        ),
{
}

/// The shop runs its own controls every frame until it is closed; a run in
/// progress advances every frame the pause key is not pressed.
pub proof fn shop_and_run_keep_going(input: MenuInput)
    ensures
        !input.back ==> spec_step_screen(Screen::Shop, input) == (Screen::Shop, FrameAction::Shop),
        !input.pause ==> spec_step_screen(Screen::Playing, input) == (
            Screen::Playing,
            FrameAction::RunFrame,
        ),
        input.pause && input.event_ready ==> spec_step_screen(Screen::EventPaused, input) == (
            Screen::Playing,
            FrameAction::RunFrame,
        ),
{
}

} // verus!
