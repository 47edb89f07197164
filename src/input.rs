//! The per-tick decisions of the game loop: how input events change the
//! game state, and which window changes they ask for.

use vstd::prelude::*;

verus! {

/// Character speed, in cells per second.
pub const CHARACTER_SPEED: u64 = 8;

/// Speed multiplier, in hundredths (150 is 1.5).
pub const SPEED_MULTIPLIER_PERCENT: u64 = 150;

/// Sub-cell units per cell of the character's horizontal position.
pub const SUBCELLS: i64 = 1000;

/// A discrete input event, polled once per tick.
#[derive(Clone, Copy, Debug, PartialEq, Eq, Structural)]
pub enum InputEvent {
    /// The window was closed or escape was pressed.
    Quit,
    ToggleFullscreen,
    CycleWindowSize,
    MoveLeft,
    MoveRight,
    ScrollUp,
    ScrollDown,
    /// Any other event; it changes nothing.
    Other,
}

/// A change that the window must undergo.
#[derive(Clone, Copy, Debug, PartialEq, Eq, Structural)]
pub enum WindowAction {
    /// Enter (`true`) or leave (`false`) fullscreen. Fullscreen is the
    /// exclusive mode, which switches the display to the window's size, not a
    /// borderless window over the desktop.
    SetFullscreen(bool),
    /// Set the window to this width and height.
    Resize(u32, u32),
}

/// The state that the game loop carries from tick to tick.
#[derive(Clone, Copy, Debug, PartialEq, Eq, Structural)]
pub struct GameState {
    /// `false` once the loop has been asked to stop; it never turns back.
    pub running: bool,
    pub fullscreen: bool,
    /// Index of the current window size in the list of sizes.
    pub size_index: usize,
    /// Horizontal position of the character, in thousandths of a cell.
    pub char_x_sub: i64,
    /// Vertical position of the character, in cells.
    pub char_y: i64,
    /// Scroll offset of the dialogue box, in lines.
    pub scroll: usize,
}

/// What one tick of input asks of the window.
#[derive(Debug)]
pub struct TickOutput {
    /// Whether the scale factors must be recomputed.
    pub viewport_dirty: bool,
    /// The window changes to make, in order.
    pub actions: Vec<WindowAction>,
}

/// Horizontal displacement, in thousandths of a cell, for one movement event
/// after `elapsed_us` microseconds: `speed * multiplier * elapsed`, truncated.
pub open spec fn spec_move_step(elapsed_us: u64) -> int {
    (CHARACTER_SPEED as int) * (SPEED_MULTIPLIER_PERCENT as int) * (elapsed_us as int) * (
    SUBCELLS as int) / 100_000_000int
}

/// `v`, held within the range of `i64`.
pub open spec fn saturate(v: int) -> i64 {
    if v > i64::MAX {
        i64::MAX
    } else if v < i64::MIN {
        i64::MIN
    } else {
        v as i64
    }
}

/// The index after `index` in a list of `count` sizes, wrapping around:
/// `(index + 1) mod count`.
pub open spec fn next_size_index(index: usize, count: nat) -> usize {
    ((index + 1) % (count as int)) as usize
}

/// `v` held within `[0, max]`.
pub open spec fn clamp_to(v: int, max: usize) -> usize {
    if v < 0 {
        0
    } else if v > max {
        max
    } else {
        v as usize
    }
}

/// The state after `event`, with `step` the displacement of a movement,
/// `sizes` the window sizes and `max_scroll` the largest scroll offset.
pub open spec fn next_state(
    s: GameState,
    event: InputEvent,
    step: int,
    sizes: Seq<(u32, u32)>,
    max_scroll: usize,
) -> GameState {
    match event {
        InputEvent::Quit => GameState { running: false, ..s },
        InputEvent::ToggleFullscreen => GameState { fullscreen: !s.fullscreen, ..s },
        InputEvent::CycleWindowSize => if s.fullscreen {
            s
        } else {
            GameState { size_index: next_size_index(s.size_index, sizes.len()), ..s }
        },
        InputEvent::MoveLeft => GameState { char_x_sub: saturate(s.char_x_sub - step), ..s },
        InputEvent::MoveRight => GameState { char_x_sub: saturate(s.char_x_sub + step), ..s },
        InputEvent::ScrollUp => GameState { scroll: clamp_to(s.scroll - 1, max_scroll), ..s },
        InputEvent::ScrollDown => GameState { scroll: clamp_to(s.scroll + 1, max_scroll), ..s },
        InputEvent::Other => s,
    }
}

/// The window changes that `event` asks for in state `s`.
pub open spec fn event_actions(s: GameState, event: InputEvent, sizes: Seq<(u32, u32)>) -> Seq<
    WindowAction,
> {
    match event {
        InputEvent::ToggleFullscreen => seq![WindowAction::SetFullscreen(!s.fullscreen)],
        InputEvent::CycleWindowSize => if s.fullscreen {
            Seq::empty()
        } else {
            let size = sizes[next_size_index(s.size_index, sizes.len()) as int];
            seq![WindowAction::Resize(size.0, size.1)]
        },
        _ => Seq::empty(),
    }
}

/// The state after the events `events`, in order, from `s`.
pub open spec fn state_after(
    s: GameState,
    events: Seq<InputEvent>,
    step: int,
    sizes: Seq<(u32, u32)>,
    max_scroll: usize,
) -> GameState
    decreases events.len(),
{
    if events.len() == 0 {
        s
    } else {
        next_state(
            state_after(s, events.drop_last(), step, sizes, max_scroll),
            events.last(),
            step,
            sizes,
            max_scroll,
        )
    }
}

/// The window changes that the events `events` ask for, in order, from `s`.
pub open spec fn actions_after(
    s: GameState,
    events: Seq<InputEvent>,
    step: int,
    sizes: Seq<(u32, u32)>,
    max_scroll: usize,
) -> Seq<WindowAction>
    decreases events.len(),
{
    if events.len() == 0 {
        Seq::empty()
    } else {
        let before = events.drop_last();
        actions_after(s, before, step, sizes, max_scroll) + event_actions(
            state_after(s, before, step, sizes, max_scroll),
            events.last(),
            sizes,
        )
    }
}

/// Whether any of `events` toggles fullscreen or cycles the window size.
pub open spec fn touches_window(events: Seq<InputEvent>) -> bool {
    exists|i: int|
        0 <= i < events.len() && (events[i] == InputEvent::ToggleFullscreen || events[i]
            == InputEvent::CycleWindowSize)
}

/// Stopping is final: from a stopped state, no sequence of events makes the
/// loop run again.
pub proof fn lemma_stop_is_final(
    s: GameState,
    events: Seq<InputEvent>,
    step: int,
    sizes: Seq<(u32, u32)>,
    max_scroll: usize,
)
    requires
        !s.running,
    ensures
        !state_after(s, events, step, sizes, max_scroll).running,
    decreases events.len(),
{
    if events.len() > 0 {
        lemma_stop_is_final(s, events.drop_last(), step, sizes, max_scroll);
    }
}

/// A quit event stops the loop: after any events that include one, the loop
/// is stopped.
pub proof fn lemma_quit_stops(
    s: GameState,
    events: Seq<InputEvent>,
    step: int,
    sizes: Seq<(u32, u32)>,
    max_scroll: usize,
)
    requires
        events.contains(InputEvent::Quit),
    ensures
        !state_after(s, events, step, sizes, max_scroll).running,
    decreases events.len(),
{
    let before = events.drop_last();
    if events.last() != InputEvent::Quit {
        let i = choose|i: int| 0 <= i < events.len() && events[i] == InputEvent::Quit;
        assert(before[i] == InputEvent::Quit);
        lemma_quit_stops(s, before, step, sizes, max_scroll);
    }
}

/// The scroll offset stays clamped: from an offset within `[0, max_scroll]`,
/// any events leave it within `[0, max_scroll]`.
pub proof fn lemma_scroll_stays_clamped(
    s: GameState,
    events: Seq<InputEvent>,
    step: int,
    sizes: Seq<(u32, u32)>,
    max_scroll: usize,
)
    requires
        s.scroll <= max_scroll,
    ensures
        state_after(s, events, step, sizes, max_scroll).scroll <= max_scroll,
    decreases events.len(),
{
    if events.len() > 0 {
        lemma_scroll_stays_clamped(s, events.drop_last(), step, sizes, max_scroll);
    }
}

/// The cell column of a position given in thousandths of a cell (rounded
/// down).
pub open spec fn cell_of(sub: i64) -> int {
    sub as int / SUBCELLS as int
}

/// Displacement, in thousandths of a cell, of one movement event after
/// `elapsed_us` microseconds.
pub fn move_step(elapsed_us: u64) -> (r: i64)
    ensures
        r == spec_move_step(elapsed_us),
        r >= 0,
{
    let speed = CHARACTER_SPEED as u128;
    let multiplier = SPEED_MULTIPLIER_PERCENT as u128;
    let subcells = SUBCELLS as u128;
    assert(speed == 8 && multiplier == 150 && subcells == 1000);
    let rate: u128 = speed * multiplier * subcells;
    let e = elapsed_us as u128;
    assert(e * rate <= 0xffff_ffff_ffff_ffff * 1_200_000) by (nonlinear_arith)
        requires e <= 0xffff_ffff_ffff_ffff, rate == 1_200_000;
    let d: u128 = e * rate / 100_000_000;
    assert(d <= 0x7fff_ffff_ffff_ffff) by (nonlinear_arith)
        requires e <= 0xffff_ffff_ffff_ffff, rate == 1_200_000, d == e * rate / 100_000_000;
    d as i64
}

impl GameState {
    /// A running, windowed state with the character on cell `(x, y)`, the
    /// window at size `size_index` and the dialogue box scrolled to the top.
    pub fn new(x: i32, y: i32, size_index: usize) -> (r: GameState)
        ensures
            r.running,
            !r.fullscreen,
            r.size_index == size_index,
            r.char_x_sub == x * SUBCELLS,
            r.char_y == y,
            r.scroll == 0,
            cell_of(r.char_x_sub) == x,
    {
        let r = GameState {
            running: true,
            fullscreen: false,
            size_index,
            char_x_sub: x as i64 * SUBCELLS,
            char_y: y as i64,
            scroll: 0,
        };
        assert((x * 1000) / 1000 == x);
        r
    }

    /// The cell column the character stands on.
    pub fn char_cell_x(&self) -> (r: i64)
        ensures
            r == cell_of(self.char_x_sub),
    {
        match self.char_x_sub.checked_div_euclid(SUBCELLS) {
            Some(c) => c,
            None => 0,
        }
    }

    /// Applies one event; returns the window changes it asks for.
    pub fn apply_event(
        &mut self,
        event: InputEvent,
        step: i64,
        sizes: &Vec<(u32, u32)>,
        max_scroll: usize,
        actions: &mut Vec<WindowAction>,
    )
        requires
            sizes@.len() > 0,
            step >= 0,
        ensures
            *final(self) == next_state(*old(self), event, step as int, sizes@, max_scroll),
            final(actions)@ == old(actions)@ + event_actions(*old(self), event, sizes@),
    {
        match event {
            InputEvent::Quit => {
                self.running = false;
            },
            InputEvent::ToggleFullscreen => {
                self.fullscreen = !self.fullscreen;
                actions.push(WindowAction::SetFullscreen(self.fullscreen));
            },
            InputEvent::CycleWindowSize => {
                if !self.fullscreen {
                    let len = sizes.len();
                    let next = (self.size_index % len + 1) % len;
                    proof {
                        vstd::arithmetic::div_mod::lemma_add_mod_noop(
                            self.size_index as int,
                            1,
                            len as int,
                        );
                        if len > 1 {
                            vstd::arithmetic::div_mod::lemma_small_mod(1, len as nat);
                        }
                    }
                    self.size_index = next;
                    let size = sizes[next];
                    actions.push(WindowAction::Resize(size.0, size.1));
                }
            },
            InputEvent::MoveLeft => {
                self.char_x_sub = match self.char_x_sub.checked_sub(step) {
                    Some(v) => v,
                    None => i64::MIN,
                };
            },
            InputEvent::MoveRight => {
                self.char_x_sub = match self.char_x_sub.checked_add(step) {
                    Some(v) => v,
                    None => i64::MAX,
                };
            },
            InputEvent::ScrollUp => {
                let up = if self.scroll == 0 {
                    0
                } else {
                    self.scroll - 1
                };
                self.scroll = if up > max_scroll {
                    max_scroll
                } else {
                    up
                };
            },
            InputEvent::ScrollDown => {
                let down = if self.scroll == usize::MAX {
                    usize::MAX
                } else {
                    self.scroll + 1
                };
                self.scroll = if down > max_scroll {
                    max_scroll
                } else {
                    down
                };
            },
            InputEvent::Other => {},
        }
        proof {
            assert(actions@ =~= old(actions)@ + event_actions(*old(self), event, sizes@));
        }
    }

    /// Applies one tick's events in order, each movement by the distance
    /// covered in `elapsed_us` microseconds. `sizes` are the window sizes to
    /// cycle through and `max_scroll` the largest scroll offset of the
    /// dialogue box.
    pub fn handle_events(
        &mut self,
        events: &Vec<InputEvent>,
        elapsed_us: u64,
        sizes: &Vec<(u32, u32)>,
        max_scroll: usize,
    ) -> (r: TickOutput)
        requires
            sizes@.len() > 0,
        ensures
            *final(self) == state_after(
                *old(self),
                events@,
                spec_move_step(elapsed_us),
                sizes@,
                max_scroll,
            ),
            r.actions@ == actions_after(
                *old(self),
                events@,
                spec_move_step(elapsed_us),
                sizes@,
                max_scroll,
            ),
            r.viewport_dirty == touches_window(events@),
    {
        let step = move_step(elapsed_us);
        let ghost start = *self;
        let ghost evs = events@;
        let mut actions: Vec<WindowAction> = Vec::new();
        let mut dirty = false;
        let mut k: usize = 0;
        proof {
            assert(evs.take(0) =~= Seq::<InputEvent>::empty());
            assert(actions@ =~= Seq::<WindowAction>::empty());
        }
        while k < events.len()
            invariant
                evs == events@,
                sizes@.len() > 0,
                step == spec_move_step(elapsed_us),
                step >= 0,
                k <= evs.len(),
                *self == state_after(start, evs.take(k as int), step as int, sizes@, max_scroll),
                actions@ == actions_after(start, evs.take(k as int), step as int, sizes@, max_scroll),
                dirty == touches_window(evs.take(k as int)),
            decreases evs.len() - k,
        {
            let event = events[k];
            proof {
                let next = evs.take(k + 1);
                assert(next.drop_last() =~= evs.take(k as int));
                assert(next.last() == event);
            }
            self.apply_event(event, step, sizes, max_scroll, &mut actions);
            match event {
                InputEvent::ToggleFullscreen | InputEvent::CycleWindowSize => {
                    dirty = true;
                },
                _ => {},
            }
            proof {
                let next = evs.take(k + 1);
                if dirty {
                    if event == InputEvent::ToggleFullscreen || event == InputEvent::CycleWindowSize {
                        assert(next[k as int] == event);
                    } else {
                        let i = choose|i: int|
                            0 <= i < k && (evs.take(k as int)[i] == InputEvent::ToggleFullscreen
                                || evs.take(k as int)[i] == InputEvent::CycleWindowSize);
                        assert(next[i] == evs.take(k as int)[i]);
                    }
                } else {
                    assert forall|i: int| 0 <= i < next.len() implies !(next[i]
                        == InputEvent::ToggleFullscreen || next[i] == InputEvent::CycleWindowSize) by {
                        if i < k {
                            assert(next[i] == evs.take(k as int)[i]);
                        }
                    }
                }
            }
            k = k + 1;
        }
        proof {
            assert(evs.take(k as int) =~= evs);
        }
        TickOutput { viewport_dirty: dirty, actions }
    }
}

} // verus!
