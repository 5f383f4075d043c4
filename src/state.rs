use vstd::prelude::*;

use crate::website::Catalog;

verus! {

/// What the tray's toggle item reads.
#[derive(Clone, Copy, Debug, PartialEq, Eq, Structural)]
pub enum ToggleLabel {
    Show,
    Hide,
}

impl ToggleLabel {
    /// The text of the toggle item.
    pub fn title(&self) -> (r: &'static str)
        ensures
            r@ == (match self {
                ToggleLabel::Show => "Show"@,
                ToggleLabel::Hide => "Hide"@,
            }),
    {
        match self {
            ToggleLabel::Show => "Show",
            ToggleLabel::Hide => "Hide",
        }
    }
}

/// The calls one operation asks of the surface host and the menu: first hide
/// `hide`, then show `show`, then set the toggle item to `label`.
#[derive(Clone, Copy, Debug, PartialEq, Eq)]
pub struct Effects {
    pub hide: Option<usize>,
    pub show: Option<usize>,
    pub label: Option<ToggleLabel>,
}

/// The model of the shared state: which entry is active, whether it is shown,
/// and how many entries the catalog has.
pub ghost struct StateView {
    pub active: nat,
    pub visible: bool,
    pub count: nat,
}

impl StateView {
    /// The active index names a real entry.
    pub open spec fn is_valid(self) -> bool {
        self.active < self.count
    }

    /// The surfaces as they should stand: only the active one shown, and that
    /// only while visible.
    pub open spec fn screen(self) -> Seq<bool> {
        Seq::new(self.count, |i: int| self.visible && i == self.active)
    }

    /// The toggle item's text for this state.
    pub open spec fn label(self) -> ToggleLabel {
        if self.visible {
            ToggleLabel::Hide
        } else {
            ToggleLabel::Show
        }
    }

    /// After a toggle: visibility flipped, the active entry kept.
    pub open spec fn toggled(self) -> StateView {
        StateView { visible: !self.visible, ..self }
    }

    /// After selecting `id`: it is active and shown.
    pub open spec fn selected(self, id: nat) -> StateView {
        StateView { active: id, visible: true, ..self }
    }

    /// After a rotation tick: the next entry, cyclically, while visible;
    /// nothing changes while hidden.
    pub open spec fn ticked(self) -> StateView {
        if self.visible {
            StateView { active: ((self.active + 1) as int % (self.count as int)) as nat, ..self }
        } else {
            self
        }
    }

    /// After the surface `id` asked to close: a toggle if it is the active
    /// one, otherwise nothing.
    pub open spec fn close_requested(self, id: nat) -> StateView {
        if id == self.active {
            self.toggled()
        } else {
            self
        }
    }

    /// `k` rotation ticks in a row.
    pub open spec fn ticked_n(self, k: nat) -> StateView
        decreases k,
    {
        if k == 0 {
            self
        } else {
            self.ticked_n((k - 1) as nat).ticked()
        }
    }
}

/// The surfaces after the host carried out `e`: first the hide, then the show.
pub open spec fn applied(screen: Seq<bool>, e: Effects) -> Seq<bool> {
    let hidden = match e.hide {
        Some(h) => screen.update(h as int, false),
        None => screen,
    };
    match e.show {
        Some(v) => hidden.update(v as int, true),
        None => hidden,
    }
}

/// The calls of `e` address real surfaces.
pub open spec fn in_range(e: Effects, count: nat) -> bool {
    &&& (e.hide matches Some(h) ==> h < count)
    &&& (e.show matches Some(v) ==> v < count)
}

/// `e` carries the screen of `before` to that of `after`, with calls on real
/// surfaces only, and hides nothing but the surface that was shown.
pub open spec fn carries(e: Effects, before: StateView, after: StateView) -> bool {
    &&& in_range(e, before.count)
    &&& applied(before.screen(), e) == after.screen()
    &&& (e.hide matches Some(h) ==> before.visible && h == before.active)
}

/// How far the host got with a set of calls before one of them failed.
#[derive(Clone, Copy, Debug, PartialEq, Eq)]
pub enum Progress {
    /// The first surface call failed: the surfaces are as they were.
    Nothing,
    /// The hide went through and the show failed.
    Hidden,
    /// Both surface calls went through; only the label failed.
    Surfaces,
}

/// The surfaces after the host got as far as `p` with `e`, starting from the
/// screen of `before`.
pub open spec fn reached(before: StateView, e: Effects, p: Progress) -> Seq<bool> {
    match p {
        Progress::Nothing => before.screen(),
        Progress::Hidden => match e.hide {
            Some(h) => before.screen().update(h as int, false),
            None => before.screen(),
        },
        Progress::Surfaces => applied(before.screen(), e),
    }
}

/// The state that matches the surfaces after the host got as far as `p` with
/// `e`, which was to take `before` to `after`.
pub open spec fn settled(before: StateView, after: StateView, e: Effects, p: Progress) -> StateView {
    match p {
        Progress::Nothing => before,
        Progress::Hidden => if e.hide is Some {
            StateView { visible: false, ..before }
        } else {
            before
        },
        Progress::Surfaces => after,
    }
}

/// No call at all.
pub open spec fn no_effects() -> Effects {
    Effects { hide: None, show: None, label: None }
}

/// The calls of a selection of `id`: the old surface is hidden if it was
/// shown and is another one; `id` is always shown, which changes nothing
/// when it already was.
pub open spec fn select_effects(s: StateView, id: nat) -> Effects {
    Effects {
        hide: if s.visible && s.active != id {
            Some(s.active as usize)
        } else {
            None
        },
        show: Some(id as usize),
        label: Some(ToggleLabel::Hide),
    }
}

/// The calls of a toggle: the active surface is hidden or shown.
pub open spec fn toggle_effects(s: StateView) -> Effects {
    if s.visible {
        Effects { hide: Some(s.active as usize), show: None, label: Some(ToggleLabel::Show) }
    } else {
        Effects { hide: None, show: Some(s.active as usize), label: Some(ToggleLabel::Hide) }
    }
}

/// The calls of a rotation tick: none while hidden, else the active surface
/// makes way for the next.
pub open spec fn tick_effects(s: StateView) -> Effects {
    if s.visible {
        Effects {
            hide: Some(s.active as usize),
            show: Some(s.ticked().active as usize),
            label: Some(ToggleLabel::Hide),
        }
    } else {
        no_effects()
    }
}

/// An entry of the tray menu.
#[derive(Clone, Copy, Debug, PartialEq, Eq)]
pub enum MenuItem {
    Quit,
    ToggleVisible,
    Reset,
    Restart,
    SelectEntry(usize),
}

/// What the host does after a menu click.
#[derive(Clone, Copy, Debug, PartialEq, Eq)]
pub enum Command {
    /// Leave the process with this code.
    Exit(i32),
    /// Start the process anew.
    Restart,
    /// Fit every surface to the smallest display.
    ResetLayout,
    /// Carry out these calls.
    Update(Effects),
}

/// The state that decides which surface is shown. Every change goes through
/// its operations, each of which also reports the calls that bring the
/// surfaces and the menu in line with it.
#[derive(Clone, Copy, Debug)]
pub struct AppState {
    active: usize,
    visible: bool,
    count: usize,
}

impl View for AppState {
    type V = StateView;

    closed spec fn view(&self) -> StateView {
        StateView { active: self.active as nat, visible: self.visible, count: self.count as nat }
    }
}

impl AppState {
    /// The state is well formed.
    pub open spec fn wf(&self) -> bool {
        self@.is_valid()
    }

    /// The state at startup: the default entry active and shown.
    pub fn start(catalog: &Catalog) -> (r: AppState)
        ensures
            r.wf(),
            r@ == (StateView {
                active: catalog.default_entry(),
                visible: true,
                count: catalog.info().websites@.len(),
            }),
            catalog.info().websites@[r@.active as int].name@ == catalog.info().default@,
    {
        AppState { active: catalog.default_index(), visible: true, count: catalog.len() }
    }

    /// The active entry.
    pub fn active_index(&self) -> (r: usize)
        ensures
            r == self@.active,
    {
        self.active
    }

    /// Whether the active entry is shown.
    pub fn is_visible(&self) -> (r: bool)
        ensures
            r == self@.visible,
    {
        self.visible
    }

    /// The number of entries.
    pub fn entry_count(&self) -> (r: usize)
        ensures
            r == self@.count,
    {
        self.count
    }

    /// What the toggle item should read.
    pub fn label(&self) -> (r: ToggleLabel)
        ensures
            r == self@.label(),
    {
        if self.visible {
            ToggleLabel::Hide
        } else {
            ToggleLabel::Show
        }
    }

    /// Whether surface `id` should be shown.
    pub fn is_shown(&self, id: usize) -> (r: bool)
        requires
            self.wf(),
            id < self@.count,
        ensures
            r == self@.screen()[id as int],
    {
        self.visible && id == self.active
    }

    /// Makes `id` the active entry and shows it.
    pub fn select_entry(&mut self, id: usize) -> (e: Effects)
        requires
            old(self).wf(),
            id < old(self)@.count,
        ensures
            final(self).wf(),
            final(self)@ == old(self)@.selected(id as nat),
            e == select_effects(old(self)@, id as nat),
            carries(e, old(self)@, final(self)@),
            e.label == Some(final(self)@.label()),
    {
        let e = Effects {
            hide: if self.visible && self.active != id {
                Some(self.active)
            } else {
                None
            },
            show: Some(id),
            label: Some(ToggleLabel::Hide),
        };
        let ghost before = self@;
        self.active = id;
        self.visible = true;
        assert(applied(before.screen(), e) =~= self@.screen());
        e
    }

    /// Hides the active entry if it is shown, shows it otherwise.
    pub fn toggle_visibility(&mut self) -> (e: Effects)
        requires
            old(self).wf(),
        ensures
            final(self).wf(),
            final(self)@ == old(self)@.toggled(),
            e == toggle_effects(old(self)@),
            carries(e, old(self)@, final(self)@),
            e.label == Some(final(self)@.label()),
    {
        let ghost before = self@;
        let e = if self.visible {
            Effects { hide: Some(self.active), show: None, label: Some(ToggleLabel::Show) }
        } else {
            Effects { hide: None, show: Some(self.active), label: Some(ToggleLabel::Hide) }
        };
        self.visible = !self.visible;
        assert(applied(before.screen(), e) =~= self@.screen());
        e
    }

    /// The surface `id` asked to close. Surfaces are never closed: the active
    /// one is toggled, another one is left as it is.
    pub fn handle_close_request(&mut self, id: usize) -> (e: Effects)
        requires
            old(self).wf(),
        ensures
            final(self).wf(),
            final(self)@ == old(self)@.close_requested(id as nat),
            e == (if id == old(self)@.active {
                toggle_effects(old(self)@)
            } else {
                no_effects()
            }),
            carries(e, old(self)@, final(self)@),
    {
        if id == self.active {
            self.toggle_visibility()
        } else {
            assert(applied(self@.screen(), no_effects()) =~= self@.screen());
            Effects { hide: None, show: None, label: None }
        }
    }

    /// One rotation tick: while visible, the next entry, cyclically, becomes
    /// the active one; while hidden, nothing happens.
    pub fn rotate_tick(&mut self) -> (e: Effects)
        requires
            old(self).wf(),
        ensures
            final(self).wf(),
            final(self)@ == old(self)@.ticked(),
            e == tick_effects(old(self)@),
            carries(e, old(self)@, final(self)@),
    {
        let ghost before = self@;
        if !self.visible {
            assert(applied(before.screen(), no_effects()) =~= self@.screen());
            return Effects { hide: None, show: None, label: None };
        }
        let old_active = self.active;
        let next = if self.active + 1 < self.count {
            self.active + 1
        } else {
            0
        };
        assert(next as int == (before.active + 1) as int % (before.count as int)) by {
            if before.active + 1 == before.count {
                vstd::arithmetic::div_mod::lemma_mod_self_0(before.count as int);
            } else {
                vstd::arithmetic::div_mod::lemma_small_mod(
                    (before.active + 1) as nat,
                    before.count,
                );
            }
        }
        self.active = next;
        let e = Effects { hide: Some(old_active), show: Some(next), label: Some(ToggleLabel::Hide) };
        assert(applied(before.screen(), e) =~= self@.screen());
        e
    }

    /// A host call failed partway through `e`, the calls that took `before`
    /// to this state. Puts the state in line with what the surfaces now show,
    /// so that it never claims a surface is shown that is not.
    pub fn settle(&mut self, before: AppState, e: Effects, p: Progress)
        requires
            old(self).wf(),
            before.wf(),
            carries(e, before@, old(self)@),
        ensures
            final(self).wf(),
            final(self)@ == settled(before@, old(self)@, e, p),
            final(self)@.screen() == reached(before@, e, p),
    {
        match p {
            Progress::Nothing => {
                *self = before;
            },
            Progress::Hidden => {
                if e.hide.is_some() {
                    *self = AppState { visible: false, ..before };
                    assert(self@.screen() =~= reached(before@, e, p));
                } else {
                    *self = before;
                }
            },
            Progress::Surfaces => {},
        }
    }

    /// Handles a click on a menu item. A selection of an entry that the
    /// catalog does not have changes nothing.
    pub fn dispatch(&mut self, item: MenuItem) -> (r: Command)
        requires
            old(self).wf(),
        ensures
            final(self).wf(),
            match item {
                MenuItem::Quit => r == Command::Exit(0) && final(self)@ == old(self)@,
                MenuItem::Restart => r == Command::Restart && final(self)@ == old(self)@,
                MenuItem::Reset => r == Command::ResetLayout && final(self)@ == old(self)@,
                MenuItem::ToggleVisible => {
                    &&& final(self)@ == old(self)@.toggled()
                    &&& r == Command::Update(toggle_effects(old(self)@))
                },
                MenuItem::SelectEntry(id) => if id < old(self)@.count {
                    &&& final(self)@ == old(self)@.selected(id as nat)
                    &&& r == Command::Update(select_effects(old(self)@, id as nat))
                } else {
                    &&& final(self)@ == old(self)@
                    &&& r == Command::Update(no_effects())
                },
            },
    {
        match item {
            MenuItem::Quit => Command::Exit(0),
            MenuItem::Restart => Command::Restart,
            MenuItem::Reset => Command::ResetLayout,
            MenuItem::ToggleVisible => Command::Update(self.toggle_visibility()),
            MenuItem::SelectEntry(id) => if id < self.count {
                Command::Update(self.select_entry(id))
            } else {
                Command::Update(Effects { hide: None, show: None, label: None })
            },
        }
    }
}

} // verus!
