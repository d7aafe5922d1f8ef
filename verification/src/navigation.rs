//! The two screens of the browser and how the keys move between them: the
//! list of wands, and the detail of one wand with a cursor on its drawn
//! spells.

use crate::models::{BoneWand, BoneWandView};
use vstd::math::{max, min};
use vstd::prelude::*;

verus! {

/// What the user asks for.
#[derive(Clone, Copy, Debug, PartialEq, Eq, Structural)]
pub enum Event {
    MoveDown,
    MoveUp,
    Select,
    Back,
    Quit,
}

/// A key, as far as the browser tells keys apart.
#[derive(Clone, Copy, Debug, PartialEq, Eq, Structural)]
pub enum Key {
    Down,
    Up,
    Enter,
    Backspace,
    Esc,
    Char(char),
    Other,
}

/// The screen that is shown.
#[derive(Clone, Copy, Debug, PartialEq, Eq, Structural)]
pub enum UiState {
    /// The list of all wands.
    ListView,
    /// The wand at `index`, with `cursor` on one of its drawn spells.
    DetailView { index: usize, cursor: usize },
}

impl Default for UiState {
    /// The browser starts in the list.
    fn default() -> (ui_state: UiState)
        ensures
            ui_state == UiState::ListView,
    {
        UiState::ListView
    }
}

/// The mathematical model of a [`UiState`].
pub enum UiStateView {
    ListView,
    DetailView { index: int, cursor: int },
}

impl View for UiState {
    type V = UiStateView;

    open spec fn view(&self) -> UiStateView {
        match self {
            UiState::ListView => UiStateView::ListView,
            UiState::DetailView { index, cursor } => UiStateView::DetailView {
                index: *index as int,
                cursor: *cursor as int,
            },
        }
    }
}

/// The event that a key stands for; none for a key that is ignored.
pub open spec fn event_of_key(key: Key) -> Option<Event> {
    match key {
        Key::Down => Some(Event::MoveDown),
        Key::Up => Some(Event::MoveUp),
        Key::Enter => Some(Event::Select),
        Key::Backspace => Some(Event::Back),
        Key::Esc => Some(Event::Quit),
        Key::Char(c) => if c == 'q' {
            Some(Event::Quit)
        } else {
            None
        },
        Key::Other => None,
    }
}

/// The event that a key stands for; none for a key that is ignored.
pub fn event_for_key(key: Key) -> (event: Option<Event>)
    ensures
        event == event_of_key(key),
{
    match key {
        Key::Down => Some(Event::MoveDown),
        Key::Up => Some(Event::MoveUp),
        Key::Enter => Some(Event::Select),
        Key::Backspace => Some(Event::Back),
        Key::Esc => Some(Event::Quit),
        Key::Char(c) => if c == 'q' {
            Some(Event::Quit)
        } else {
            None
        },
        Key::Other => None,
    }
}

/// A cursor one step further down among `count` items: it stops at the
/// last item, and does not move where there is none.
pub open spec fn moved_down(cursor: int, count: int) -> int {
    if count > 0 {
        min(cursor + 1, count - 1)
    } else {
        cursor
    }
}

/// A cursor one step further up: it stops at the first item.
pub open spec fn moved_up(cursor: int) -> int {
    max(cursor - 1, 0)
}

/// The mathematical model of a [`State`].
pub struct StateView {
    pub wands: Seq<BoneWandView>,
    pub list_cursor: int,
    pub ui_state: UiStateView,
}

impl StateView {
    /// The state in which the browser starts: the list, with the cursor on
    /// its first line.
    pub open spec fn initial(wands: Seq<BoneWandView>) -> StateView {
        StateView { wands, list_cursor: 0, ui_state: UiStateView::ListView }
    }

    /// How many spells of the wand at `index` are drawn from the deck.
    pub open spec fn drawn_count(self, index: int) -> int {
        self.wands[index].wand.drawn_spells().len() as int
    }

    /// The list cursor is on a wand, or at 0 where there is none. In the
    /// detail of a wand, that wand is the one under the list cursor, and
    /// the detail cursor is on one of its drawn spells, or at 0 where it
    /// has none.
    pub open spec fn wf(self) -> bool {
        &&& 0 <= self.list_cursor
        &&& self.list_cursor < max(self.wands.len() as int, 1)
        &&& match self.ui_state {
            UiStateView::ListView => true,
            UiStateView::DetailView { index, cursor } => {
                &&& index == self.list_cursor
                &&& index < self.wands.len()
                &&& 0 <= cursor
                &&& cursor < max(self.drawn_count(index), 1)
            },
        }
    }

    /// The detail cursor, where a wand's detail is shown.
    pub open spec fn detail_cursor(self) -> Option<int> {
        match self.ui_state {
            UiStateView::ListView => None,
            UiStateView::DetailView { cursor, .. } => Some(cursor),
        }
    }

    /// Whether `event` ends the browser: leaving the list does, and nothing
    /// else.
    pub open spec fn quits(self, event: Event) -> bool {
        self.ui_state is ListView && (event is Back || event is Quit)
    }

    /// The state after `event`.
    pub open spec fn step(self, event: Event) -> StateView {
        match self.ui_state {
            UiStateView::ListView => match event {
                Event::MoveDown => StateView {
                    list_cursor: moved_down(self.list_cursor, self.wands.len() as int),
                    ..self
                },
                Event::MoveUp => StateView { list_cursor: moved_up(self.list_cursor), ..self },
                Event::Select => if self.list_cursor < self.wands.len() {
                    StateView {
                        ui_state: UiStateView::DetailView { index: self.list_cursor, cursor: 0 },
                        ..self
                    }
                } else {
                    self
                },
                Event::Back | Event::Quit => self,
            },
            UiStateView::DetailView { index, cursor } => match event {
                Event::MoveDown => StateView {
                    ui_state: UiStateView::DetailView {
                        index,
                        cursor: moved_down(cursor, self.drawn_count(index)),
                    },
                    ..self
                },
                Event::MoveUp => StateView {
                    ui_state: UiStateView::DetailView { index, cursor: moved_up(cursor) },
                    ..self
                },
                Event::Select => self,
                Event::Back | Event::Quit => StateView {
                    ui_state: UiStateView::ListView,
                    ..self
                },
            },
        }
    }

    /// The state after `count` times the same event.
    pub open spec fn repeat(self, event: Event, count: nat) -> StateView
        decreases count,
    {
        if count == 0 {
            self
        } else {
            self.step(event).repeat(event, (count - 1) as nat)
        }
    }

    /// The state after a run of events, one after the other.
    pub open spec fn run(self, events: Seq<Event>) -> StateView
        decreases events.len(),
    {
        if events.len() == 0 {
            self
        } else {
            self.run(events.drop_last()).step(events.last())
        }
    }
}

/// No event leads out of the well-formed states, and none changes the
/// wands.
pub proof fn lemma_step_keeps_wf(state: StateView, event: Event)
    requires
        state.wf(),
    ensures
        state.step(event).wf(),
        state.step(event).wands == state.wands,
{
}

/// Whatever the user does from a well-formed state, the wands stay as they
/// are, the list cursor stays on a wand and the detail cursor on a drawn
/// spell of the wand that is shown; where that wand has no drawn spell,
/// the detail cursor stays at 0.
pub proof fn lemma_run_keeps_wf(state: StateView, events: Seq<Event>)
    requires
        state.wf(),
    ensures
        state.run(events).wf(),
        state.run(events).wands == state.wands,
        state.run(events).ui_state matches UiStateView::DetailView { index, cursor } ==> {
            &&& 0 <= index < state.wands.len()
            &&& 0 <= cursor
            &&& state.drawn_count(index) > 0 ==> cursor <= state.drawn_count(index) - 1
            &&& state.drawn_count(index) == 0 ==> cursor == 0
        },
    decreases events.len(),
{
    if events.len() > 0 {
        lemma_run_keeps_wf(state, events.drop_last());
        lemma_step_keeps_wf(state.run(events.drop_last()), events.last());
    }
}

/// Every state that a run of events reaches from the start is well-formed.
pub proof fn lemma_reachable_is_wf(wands: Seq<BoneWandView>, events: Seq<Event>)
    ensures
        StateView::initial(wands).wf(),
        StateView::initial(wands).run(events).wf(),
        StateView::initial(wands).run(events).wands == wands,
{
    lemma_run_keeps_wf(StateView::initial(wands), events);
}

/// In the detail of a wand without drawn spells no movement changes
/// anything.
pub proof fn lemma_no_movement_without_spells(state: StateView, event: Event)
    requires
        state.wf(),
        state.ui_state matches UiStateView::DetailView { index, .. } && state.drawn_count(index)
            == 0,
        event is MoveDown || event is MoveUp,
    ensures
        state.step(event) == state,
{
}

/// In the list, moving up from the first wand any number of times changes
/// nothing, and so does moving down from the last wand.
pub proof fn lemma_list_cursor_stops_at_ends(state: StateView, count: nat)
    requires
        state.wf(),
        state.ui_state is ListView,
    ensures
        state.list_cursor == 0 ==> state.repeat(Event::MoveUp, count) == state,
        state.list_cursor == state.wands.len() - 1 ==> state.repeat(Event::MoveDown, count)
            == state,
    decreases count,
{
    if count > 0 {
        lemma_list_cursor_stops_at_ends(state, (count - 1) as nat);
    }
}

/// Selecting in the list opens the wand under the cursor with the detail
/// cursor at 0; going back from the detail of any wand returns to the list
/// without a detail cursor. Neither moves the list cursor.
pub proof fn lemma_view_transitions(state: StateView)
    requires
        state.wf(),
    ensures
        state.ui_state is ListView && state.wands.len() > 0 ==> {
            &&& state.step(Event::Select).ui_state == UiStateView::DetailView {
                index: state.list_cursor,
                cursor: 0,
            }
            &&& state.step(Event::Select).detail_cursor() == Some(0int)
            &&& state.step(Event::Select).list_cursor == state.list_cursor
        },
        state.ui_state is DetailView ==> {
            &&& state.step(Event::Back).ui_state == UiStateView::ListView
            &&& state.step(Event::Back).detail_cursor() is None
            &&& state.step(Event::Back).list_cursor == state.list_cursor
        },
{
}

/// The browser's state: the wands, the cursor in the list, and the screen
/// that is shown.
pub struct State {
    wands: Vec<BoneWand>,
    list_cursor: usize,
    ui_state: UiState,
}

/// The models of a list of wands.
pub open spec fn wand_views(wands: Seq<BoneWand>) -> Seq<BoneWandView> {
    wands.map_values(|wand: BoneWand| wand@)
}

impl View for State {
    type V = StateView;

    closed spec fn view(&self) -> StateView {
        StateView {
            wands: wand_views(self.wands@),
            list_cursor: self.list_cursor as int,
            ui_state: self.ui_state@,
        }
    }
}

impl State {
    #[verifier::type_invariant]
    spec fn inv(self) -> bool {
        self@.wf()
    }

    /// The state in which the browser starts.
    pub fn new(wands: Vec<BoneWand>) -> (state: State)
        ensures
            state@ == StateView::initial(wand_views(wands@)),
            state@.wf(),
    {
        State { wands, list_cursor: 0, ui_state: UiState::default() }
    }

    /// The wands, in the order of the list.
    pub fn wands(&self) -> (wands: &Vec<BoneWand>)
        ensures
            wand_views(wands@) == self@.wands,
    {
        &self.wands
    }

    /// The line of the list that the cursor is on.
    pub fn list_cursor(&self) -> (cursor: usize)
        ensures
            cursor == self@.list_cursor,
            self@.wf(),
    {
        proof {
            use_type_invariant(self);
        }
        self.list_cursor
    }

    /// The screen that is shown.
    pub fn ui_state(&self) -> (ui_state: UiState)
        ensures
            ui_state@ == self@.ui_state,
            self@.wf(),
    {
        proof {
            use_type_invariant(self);
        }
        self.ui_state
    }

    /// The detail cursor, where a wand's detail is shown.
    pub fn detail_cursor(&self) -> (cursor: Option<usize>)
        ensures
            match cursor {
                Some(c) => self@.detail_cursor() == Some(c as int),
                None => self@.detail_cursor() is None,
            },
    {
        match self.ui_state {
            UiState::ListView => None,
            UiState::DetailView { index, cursor } => Some(cursor),
        }
    }

    /// The wand whose detail is shown.
    pub fn shown_wand(&self) -> (wand: Option<&BoneWand>)
        ensures
            self@.wf(),
            match wand {
                Some(w) => self@.ui_state matches UiStateView::DetailView { index, .. } && w@
                    == self@.wands[index],
                None => self@.ui_state is ListView,
            },
    {
        proof {
            use_type_invariant(self);
        }
        match self.ui_state {
            UiState::ListView => None,
            UiState::DetailView { index, cursor } => Some(&self.wands[index]),
        }
    }

    /// Takes one event: moves a cursor or changes the screen. Returns
    /// whether the event ends the browser.
    pub fn handle_event(&mut self, event: Event) -> (quit: bool)
        ensures
            final(self)@ == old(self)@.step(event),
            quit == old(self)@.quits(event),
            final(self)@.wf(),
    {
        proof {
            use_type_invariant(&*self);
        }
        match self.ui_state {
            UiState::ListView => match event {
                Event::MoveDown => {
                    let count = self.wands.len();
                    if count > 0 && self.list_cursor < count - 1 {
                        self.list_cursor = self.list_cursor + 1;
                    }
                    false
                },
                Event::MoveUp => {
                    if self.list_cursor > 0 {
                        self.list_cursor = self.list_cursor - 1;
                    }
                    false
                },
                Event::Select => {
                    if self.list_cursor < self.wands.len() {
                        self.ui_state = UiState::DetailView { index: self.list_cursor, cursor: 0 };
                    }
                    false
                },
                Event::Back | Event::Quit => true,
            },
            UiState::DetailView { index, cursor } => match event {
                Event::MoveDown => {
                    let count = self.wands[index].wand.drawn_spell_count();
                    if cursor + 1 < count {
                        self.ui_state = UiState::DetailView { index, cursor: cursor + 1 };
                    }
                    false
                },
                Event::MoveUp => {
                    if cursor > 0 {
                        self.ui_state = UiState::DetailView { index, cursor: cursor - 1 };
                    }
                    false
                },
                Event::Select => false,
                Event::Back | Event::Quit => {
                    self.ui_state = UiState::ListView;
                    false
                },
            },
        }
    }

    /// Takes one key: the event it stands for, if any. Returns whether the
    /// key ends the browser.
    pub fn handle_key(&mut self, key: Key) -> (quit: bool)
        ensures
            match event_of_key(key) {
                Some(event) => final(self)@ == old(self)@.step(event) && quit == old(
                    self,
                )@.quits(event),
                None => final(self)@ == old(self)@ && !quit,
            },
            final(self)@.wf(),
    {
        proof {
            use_type_invariant(&*self);
        }
        match event_for_key(key) {
            Some(event) => self.handle_event(event),
            None => false,
        }
    }
}

} // verus!
