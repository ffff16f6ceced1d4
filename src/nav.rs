use vstd::prelude::*;
use crate::entry::{Item, is_navigable};
use crate::layout::{GridLayout, BORDER_ROWS};
use crate::path::{parent_dir, parent_spec};
use crate::search::{item_hit, cyclic_next, letter_jump};

verus! {

/// One input event, as far as navigation tells events apart.
#[derive(Clone, Copy, Debug, PartialEq, Eq, Structural)]
pub enum Event {
    Left,
    Right,
    Up,
    Down,
    Letter(char),
    Confirm,
    Backspace,
    Escape,
    MouseRelease(u16, u16),
    Other,
}

/// What the event loop does after a transition.
#[derive(Debug)]
pub enum Outcome {
    /// Redraw the frame as it is.
    Stay,
    /// The directory changed: blank the old region, then redraw.
    Changed,
    /// Leave the loop, reporting this directory.
    Terminated(String),
}

/// The browsing state that lives across frames.
#[derive(Debug)]
pub struct NavState {
    pub current_directory: String,
    pub selected_index: usize,
    pub scroll_offset: usize,
    pub box_top_row: u16,
}

/// What navigation reads of a state.
pub struct NavView {
    pub dir: Seq<char>,
    pub selected: int,
    pub scroll: int,
}

/// The outcome of a transition, with the directory as a sequence.
pub enum OutcomeView {
    Stay,
    Changed,
    Terminated(Seq<char>),
}

impl View for NavState {
    type V = NavView;

    open spec fn view(&self) -> NavView {
        NavView {
            dir: self.current_directory@,
            selected: self.selected_index as int,
            scroll: self.scroll_offset as int,
        }
    }
}

impl View for Outcome {
    type V = OutcomeView;

    open spec fn view(&self) -> OutcomeView {
        match self {
            Outcome::Stay => OutcomeView::Stay,
            Outcome::Changed => OutcomeView::Changed,
            Outcome::Terminated(d) => OutcomeView::Terminated(d@),
        }
    }
}

/// The selection kept within `[0, len - 1]`.
pub open spec fn clamp_index(i: int, len: int) -> int {
    if i < len { i } else { len - 1 }
}

/// The state after moving to `dir`: selection and scroll back at the start.
pub open spec fn enter_spec(dir: Seq<char>) -> (NavView, OutcomeView) {
    (NavView { dir, selected: 0, scroll: 0 }, OutcomeView::Changed)
}

/// The selection after moving one row down.
pub open spec fn down_index(sel: int, columns: int, len: int) -> int {
    if sel + columns < len { sel + columns } else { len - 1 }
}

/// The selection after moving one row up.
pub open spec fn up_index(sel: int, columns: int) -> int {
    if sel >= columns { sel - columns } else { 0 }
}

/// The scroll offset after moving down to `sel`: one more row when the
/// selection reaches the bottom of the visible window.
pub open spec fn down_scroll(sel: int, scroll: int, l: GridLayout) -> int {
    if l.scrollable && sel / (l.columns as int) + (BORDER_ROWS as int) >= l.terminal_height as int + scroll
        && scroll < usize::MAX {
        scroll + 1
    } else {
        scroll
    }
}

/// The scroll offset after moving up to `sel`: one row less when the
/// selection reaches the top of the visible window.
pub open spec fn up_scroll(sel: int, scroll: int, l: GridLayout) -> int {
    if l.scrollable && sel / (l.columns as int) <= scroll && scroll > 0 {
        scroll - 1
    } else {
        scroll
    }
}

/// The transition of the browsing state on one event, over the current
/// frame's items and layout.
pub open spec fn next_spec(s: NavView, items: Seq<Item>, l: GridLayout, ev: Event) -> (NavView, OutcomeView) {
    let len = items.len() as int;
    let sel = clamp_index(s.selected, len);
    let stay = NavView { dir: s.dir, selected: sel, scroll: s.scroll };
    match ev {
        Event::Right => (NavView { selected: if sel + 1 < len { sel + 1 } else { len - 1 }, ..stay }, OutcomeView::Stay),
        Event::Left => (NavView { selected: if sel > 0 { sel - 1 } else { 0 }, ..stay }, OutcomeView::Stay),
        Event::Up => {
            let ns = up_index(sel, l.columns as int);
            (NavView { selected: ns, scroll: up_scroll(ns, s.scroll, l), ..stay }, OutcomeView::Stay)
        },
        Event::Down => {
            let ns = down_index(sel, l.columns as int, len);
            (NavView { selected: ns, scroll: down_scroll(ns, s.scroll, l), ..stay }, OutcomeView::Stay)
        },
        Event::Letter(c) => (
            NavView { selected: cyclic_next(items.map_values(|it: Item| item_hit(it, c)), sel), ..stay },
            OutcomeView::Stay,
        ),
        Event::Backspace => enter_spec(parent_spec(s.dir)),
        Event::Escape => (stay, OutcomeView::Terminated(s.dir)),
        Event::Confirm => match items[sel] {
            Item::Back => enter_spec(parent_spec(s.dir)),
            Item::Close => (stay, OutcomeView::Terminated(s.dir)),
            Item::Entry(e) => if is_navigable(e) && e.readable {
                enter_spec(e.path@)
            } else {
                (stay, OutcomeView::Stay)
            },
        },
        _ => (stay, OutcomeView::Stay),
    }
}

impl NavState {
    /// The state at start: in `dir`, first item selected, not scrolled.
    pub fn new(dir: String, box_top_row: u16) -> (r: NavState)
        ensures
            r.current_directory == dir,
            r.selected_index == 0,
            r.scroll_offset == 0,
            r.box_top_row == box_top_row,
    {
        NavState { current_directory: dir, selected_index: 0, scroll_offset: 0, box_top_row }
    }

    fn enter(&mut self, dir: String)
        ensures
            final(self).current_directory == dir,
            final(self).selected_index == 0,
            final(self).scroll_offset == 0,
            final(self).box_top_row == old(self).box_top_row,
    {
        self.current_directory = dir;
        self.selected_index = 0;
        self.scroll_offset = 0;
    }

    /// Applies one event to the state and says what the loop does next.
    pub fn step(&mut self, items: &Vec<Item>, layout: &GridLayout, ev: Event) -> (o: Outcome)
        requires
            items@.len() >= 1,
            layout.wf(),
        ensures
            (final(self)@, o@) == next_spec(old(self)@, items@, *layout, ev),
            final(self).box_top_row == old(self).box_top_row,
            final(self).selected_index < items@.len(),
    {
        let len = items.len();
        let cols = layout.columns;
        if self.selected_index >= len {
            self.selected_index = len - 1;
        }
        let sel = self.selected_index;
        match ev {
            Event::Right => {
                self.selected_index = if sel + 1 < len { sel + 1 } else { len - 1 };
                Outcome::Stay
            },
            Event::Left => {
                self.selected_index = if sel > 0 { sel - 1 } else { 0 };
                Outcome::Stay
            },
            Event::Up => {
                let ns: usize = if sel >= cols { sel - cols } else { 0 };
                self.selected_index = ns;
                if layout.scrollable && ns / cols <= self.scroll_offset && self.scroll_offset > 0 {
                    self.scroll_offset = self.scroll_offset - 1;
                }
                Outcome::Stay
            },
            Event::Down => {
                let ns: usize = if cols < len - sel { sel + cols } else { len - 1 };
                self.selected_index = ns;
                if layout.scrollable
                    && (ns / cols) as u128 + BORDER_ROWS as u128 >= layout.terminal_height as u128
                        + self.scroll_offset as u128
                    && self.scroll_offset < usize::MAX {
                    self.scroll_offset = self.scroll_offset + 1;
                }
                Outcome::Stay
            },
            Event::Letter(c) => {
                self.selected_index = letter_jump(items, sel, c);
                Outcome::Stay
            },
            Event::Backspace => {
                let up = parent_dir(&self.current_directory);
                self.enter(up);
                Outcome::Changed
            },
            Event::Escape => Outcome::Terminated(self.current_directory.clone()),
            Event::Confirm => match &items[sel] {
                Item::Back => {
                    let up = parent_dir(&self.current_directory);
                    self.enter(up);
                    Outcome::Changed
                },
                Item::Close => Outcome::Terminated(self.current_directory.clone()),
                Item::Entry(e) => {
                    if e.is_navigable() && e.readable {
                        self.enter(e.path.clone());
                        Outcome::Changed
                    } else {
                        Outcome::Stay
                    }
                },
            },
            _ => Outcome::Stay,
        }
    }
}

/// The state after applying `events` in order, all over the same frame.
pub open spec fn run_spec(s: NavView, items: Seq<Item>, l: GridLayout, events: Seq<Event>) -> NavView
    decreases events.len(),
{
    if events.len() == 0 {
        s
    } else {
        next_spec(run_spec(s, items, l, events.drop_last()), items, l, events.last()).0
    }
}

/// The arrow-key events.
pub open spec fn is_move(ev: Event) -> bool {
    ev == Event::Left || ev == Event::Right || ev == Event::Up || ev == Event::Down
}

/// However many arrow keys are pressed, the selection stays within the list
/// after each of them.
pub proof fn lemma_moves_keep_selection(s: NavView, items: Seq<Item>, l: GridLayout, events: Seq<Event>)
    requires
        items.len() >= 1,
        l.wf(),
        0 <= s.selected < items.len(),
        forall|i: int| 0 <= i < events.len() ==> is_move(#[trigger] events[i]),
    ensures
        forall|k: int| 0 <= k <= events.len() ==>
            0 <= #[trigger] run_spec(s, items, l, events.take(k)).selected < items.len(),
    decreases events.len(),
{
    if events.len() > 0 {
        let rest = events.drop_last();
        lemma_moves_keep_selection(s, items, l, rest);
        assert forall|k: int| 0 <= k <= events.len() implies
            0 <= #[trigger] run_spec(s, items, l, events.take(k)).selected < items.len() by {
            if k < events.len() {
                assert(events.take(k) == rest.take(k));
            } else {
                assert(events.take(k) == events);
                assert(events.drop_last() == rest.take(rest.len() as int));
                let prev = run_spec(s, items, l, rest);
                assert(0 <= prev.selected < items.len());
                assert(is_move(events.last()));
            }
        }
    } else {
        assert forall|k: int| 0 <= k <= events.len() implies
            0 <= #[trigger] run_spec(s, items, l, events.take(k)).selected < items.len() by {
            assert(events.take(k).len() == 0);
        }
    }
}

/// Confirming a readable directory moves into exactly its path with the
/// selection and scroll reset; confirming an unreadable one changes nothing.
pub proof fn lemma_confirm_entry(s: NavView, items: Seq<Item>, l: GridLayout)
    requires
        0 <= s.selected < items.len(),
        items[s.selected] is Entry,
        is_navigable(items[s.selected]->Entry_0),
    ensures
        items[s.selected]->Entry_0.readable ==> {
            &&& next_spec(s, items, l, Event::Confirm).0.dir == items[s.selected]->Entry_0.path@
            &&& next_spec(s, items, l, Event::Confirm).0.selected == 0
            &&& next_spec(s, items, l, Event::Confirm).0.scroll == 0
        },
        !items[s.selected]->Entry_0.readable ==> {
            &&& next_spec(s, items, l, Event::Confirm).0 == s
            &&& next_spec(s, items, l, Event::Confirm).1 == OutcomeView::Stay
        },
{
}

/// Backspace and confirming the Back item both move to the parent directory,
/// with the selection and scroll reset.
pub proof fn lemma_back_to_parent(s: NavView, items: Seq<Item>, l: GridLayout)
    requires
        0 <= s.selected < items.len(),
        items[s.selected] is Back,
    ensures
        next_spec(s, items, l, Event::Backspace) == next_spec(s, items, l, Event::Confirm),
        next_spec(s, items, l, Event::Backspace).0.dir == parent_spec(s.dir),
        next_spec(s, items, l, Event::Backspace).0.selected == 0,
        next_spec(s, items, l, Event::Backspace).0.scroll == 0,
{
}

/// Escape, and confirming the Close item, end browsing with the directory of
/// the state they are applied to; after moving into a directory that is the
/// directory moved into, not the one browsing started in.
pub proof fn lemma_exit_reports_current(s: NavView, items: Seq<Item>, l: GridLayout, next_items: Seq<Item>)
    requires
        0 <= s.selected < items.len(),
        next_items.len() >= 1,
    ensures
        next_spec(s, items, l, Event::Escape).1 == OutcomeView::Terminated(s.dir),
        items[s.selected] is Close ==> next_spec(s, items, l, Event::Confirm).1 == OutcomeView::Terminated(s.dir),
        ({
            let moved = next_spec(s, items, l, Event::Confirm);
            moved.1 == OutcomeView::Changed ==>
                next_spec(moved.0, next_items, l, Event::Escape).1 == OutcomeView::Terminated(moved.0.dir)
        }),
        ({
            let up = next_spec(s, items, l, Event::Backspace).0;
            next_spec(up, next_items, l, Event::Escape).1 == OutcomeView::Terminated(parent_spec(s.dir))
        }),
{
}

/// One arrow key moves the scroll offset by at most one row: Down never
/// lowers it and Up never raises it.
pub proof fn lemma_scroll_one_row(s: NavView, items: Seq<Item>, l: GridLayout)
    requires
        items.len() >= 1,
        l.wf(),
    ensures
        next_spec(s, items, l, Event::Down).0.scroll == s.scroll
            || next_spec(s, items, l, Event::Down).0.scroll == s.scroll + 1,
        next_spec(s, items, l, Event::Up).0.scroll == s.scroll
            || next_spec(s, items, l, Event::Up).0.scroll == s.scroll - 1,
        !l.scrollable ==> next_spec(s, items, l, Event::Down).0.scroll == s.scroll
            && next_spec(s, items, l, Event::Up).0.scroll == s.scroll,
{
}

} // verus!
