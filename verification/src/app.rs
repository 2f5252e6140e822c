//! What a front end steers: a simulation, whether it runs, and what is shown.

use crate::config::Config;
use crate::data::compiled::Structure;
use crate::simulation::economy::EconomyMetrics;
use crate::simulation::engine::{can_populate, initial, liquidated, summary, ticked, Simulation};
use vstd::prelude::*;
use vstd::view::View as _;

verus! {

/// The pages of the front end, in the order of their tabs.
#[derive(Debug, Copy, Clone, PartialEq, Eq, Structural)]
pub enum View {
    Overview,
    Households,
    Goods,
    Stocks,
}

impl View {
    /// The page one tab to the right; behind the last comes the first.
    pub open spec fn spec_next(self) -> View {
        match self {
            View::Overview => View::Households,
            View::Households => View::Goods,
            View::Goods => View::Stocks,
            View::Stocks => View::Overview,
        }
    }

    /// The page one tab to the left; before the first comes the last.
    pub open spec fn spec_prev(self) -> View {
        match self {
            View::Overview => View::Stocks,
            View::Households => View::Overview,
            View::Goods => View::Households,
            View::Stocks => View::Goods,
        }
    }

    /// The place of the page among the tabs, counted from zero.
    pub open spec fn spec_index(self) -> usize {
        match self {
            View::Overview => 0,
            View::Households => 1,
            View::Goods => 2,
            View::Stocks => 3,
        }
    }

    /// The words on the page's tab.
    pub open spec fn spec_title(self) -> Seq<char> {
        match self {
            View::Overview => "Overview"@,
            View::Households => "Households"@,
            View::Goods => "Goods"@,
            View::Stocks => "Stocks"@,
        }
    }

    /// The place of the page among the tabs, counted from zero.
    #[verifier::when_used_as_spec(spec_index)]
    pub fn index(self) -> (i: usize)
        ensures
            i == self.spec_index(),
    {
        match self {
            View::Overview => 0,
            View::Households => 1,
            View::Goods => 2,
            View::Stocks => 3,
        }
    }

    /// The words on the page's tab.
    pub fn title(self) -> (text: &'static str)
        ensures
            text@ == self.spec_title(),
    {
        match self {
            View::Overview => "Overview",
            View::Households => "Households",
            View::Goods => "Goods",
            View::Stocks => "Stocks",
        }
    }

    /// The page one tab to the right; behind the last comes the first.
    #[verifier::when_used_as_spec(spec_next)]
    pub fn next(self) -> (v: View)
        ensures
            v == self.spec_next(),
    {
        match self {
            View::Overview => View::Households,
            View::Households => View::Goods,
            View::Goods => View::Stocks,
            View::Stocks => View::Overview,
        }
    }

    /// The page one tab to the left; before the first comes the last.
    #[verifier::when_used_as_spec(spec_prev)]
    pub fn prev(self) -> (v: View)
        ensures
            v == self.spec_prev(),
    {
        match self {
            View::Overview => View::Stocks,
            View::Households => View::Overview,
            View::Goods => View::Households,
            View::Stocks => View::Goods,
        }
    }
}

/// Stepping one tab right and one tab left again, or the other way round,
/// leads back to the same page, and a step to the right leads to the next tab
/// or from the last tab to the first.
pub proof fn lemma_tabs_step_back(v: View)
    ensures
        v.spec_next().spec_prev() == v,
        v.spec_prev().spec_next() == v,
        v.spec_next().spec_index() == (v.spec_index() + 1) % 4,
{
}

/// A key press, as far as the front end tells keys apart.
#[derive(Debug, Copy, Clone, PartialEq, Eq, Structural)]
pub enum Key {
    Char(char),
    Left,
    Right,
    Up,
    Down,
    Other,
}

/// The note that a forced sale leaves.
pub open spec fn forced_sale_note() -> Seq<char> {
    "FORCE SELL ALL STOCKS"@
}

/// The state of the front end.
pub struct App {
    pub cfg: Config,
    pub sim: Simulation,
    pub paused: bool,
    pub view: View,
    pub selected_household: usize,
    pub derived: EconomyMetrics,
    pub last_action: String,
}

impl App {
    /// The simulation is well formed, can take another tick, and is the one
    /// that the settings ask for.
    pub open spec fn wf(&self) -> bool {
        &&& self.sim.wf()
        &&& self.sim.tick < u64::MAX
        &&& self.sim.seed == self.cfg.seed
        &&& self.sim.start_households == self.cfg.start_households
    }

    /// A front end on a new simulation of `structure`, running, on the
    /// overview page.
    pub fn new(cfg: Config, structure: Structure) -> (app: App)
        requires
            structure.wf(),
            can_populate(structure, cfg.start_households),
        ensures
            app.wf(),
            app.cfg == cfg,
            app.sim.structure == structure,
            app.sim@ == initial(structure, cfg.seed, cfg.start_households),
            !app.paused,
            app.view == View::Overview,
            app.selected_household == 0,
            app.derived == summary(app.sim@),
            app.last_action@ == Seq::<char>::empty(),
    {
        let sim = Simulation::new(structure, cfg.seed, cfg.start_households);
        let mut app = App {
            cfg,
            sim,
            paused: false,
            view: View::Overview,
            selected_household: 0,
            derived: EconomyMetrics::default(),
            last_action: String::new(),
        };
        app.recompute_metrics();
        app
    }

    /// Starts the simulation over, selects the first household and forgets
    /// the last action. Whether the simulation is paused, and the page, stay.
    pub fn reset(&mut self)
        requires
            old(self).wf(),
        ensures
            final(self).wf(),
            final(self).cfg == old(self).cfg,
            final(self).sim.structure == old(self).sim.structure,
            final(self).sim@ == initial(
                old(self).sim.structure,
                old(self).cfg.seed,
                old(self).cfg.start_households,
            ),
            final(self).paused == old(self).paused,
            final(self).view == old(self).view,
            final(self).selected_household == 0,
            final(self).derived == summary(final(self).sim@),
            final(self).last_action@ == Seq::<char>::empty(),
    {
        self.sim.reset();
        self.selected_household = 0;
        self.last_action = String::new();
        self.recompute_metrics();
    }

    /// The household to show in detail: the selected one, or the last one
    /// where the selection lies behind it, or none where there is no
    /// household.
    pub fn shown_household(&self) -> (shown: Option<usize>)
        ensures
            shown == (if self.sim.households@.len() == 0 {
                None
            } else if self.selected_household < self.sim.households@.len() {
                Some(self.selected_household)
            } else {
                Some((self.sim.households@.len() - 1) as usize)
            }),
    {
        let count = self.sim.households.len();
        if count == 0 {
            None
        } else if self.selected_household < count {
            Some(self.selected_household)
        } else {
            Some(count - 1)
        }
    }

    /// Sums the simulation up anew.
    pub fn recompute_metrics(&mut self)
        ensures
            final(self).derived == summary(old(self).sim@),
            final(self).cfg == old(self).cfg,
            final(self).sim == old(self).sim,
            final(self).paused == old(self).paused,
            final(self).view == old(self).view,
            final(self).selected_household == old(self).selected_household,
            final(self).last_action == old(self).last_action,
    {
        self.derived = self.sim.derived_metrics();
    }

    /// Handles one key press and says whether the front end is to quit.
    ///
    /// `q` quits. `p` pauses or resumes. `.` advances a paused simulation by
    /// one tick and sums it up. `r` starts over. Left and right change the
    /// page, up and down the selected household. `x` forces the sale of all
    /// stocks and leaves a note of it. Any other key does nothing.
    pub fn on_key(&mut self, key: Key) -> (quit: bool)
        requires
            old(self).wf(),
        ensures
            quit == (key == Key::Char('q')),
            final(self).cfg == old(self).cfg,
            final(self).sim.wf(),
            final(self).sim.structure == old(self).sim.structure,
            final(self).sim.seed == old(self).sim.seed,
            final(self).sim.start_households == old(self).sim.start_households,
            final(self).paused == (if key == Key::Char('p') {
                !old(self).paused
            } else {
                old(self).paused
            }),
            final(self).view == (match key {
                Key::Left => old(self).view.spec_prev(),
                Key::Right => old(self).view.spec_next(),
                _ => old(self).view,
            }),
            final(self).selected_household == (match key {
                Key::Char('r') => 0,
                Key::Up => if old(self).selected_household > 0 {
                    (old(self).selected_household - 1) as usize
                } else {
                    old(self).selected_household
                },
                Key::Down => if old(self).selected_household + 1 < old(self).sim@.households.len() {
                    (old(self).selected_household + 1) as usize
                } else {
                    old(self).selected_household
                },
                _ => old(self).selected_household,
            }),
            final(self).sim@ == (match key {
                Key::Char('.') => if old(self).paused {
                    ticked(old(self).sim@, old(self).sim.structure)
                } else {
                    old(self).sim@
                },
                Key::Char('r') => initial(
                    old(self).sim.structure,
                    old(self).cfg.seed,
                    old(self).cfg.start_households,
                ),
                Key::Char('x') => liquidated(old(self).sim@),
                _ => old(self).sim@,
            }),
            final(self).derived == (match key {
                Key::Char('.') => if old(self).paused {
                    summary(final(self).sim@)
                } else {
                    old(self).derived
                },
                Key::Char('r') => summary(final(self).sim@),
                _ => old(self).derived,
            }),
            final(self).last_action@ == (match key {
                Key::Char('r') => Seq::<char>::empty(),
                Key::Char('x') => forced_sale_note(),
                _ => old(self).last_action@,
            }),
    {
        match key {
            Key::Char(c) => {
                if c == 'q' {
                    return true;
                } else if c == 'p' {
                    self.paused = !self.paused;
                } else if c == '.' {
                    if self.paused {
                        self.sim.tick();
                        self.recompute_metrics();
                    }
                } else if c == 'r' {
                    self.reset();
                } else if c == 'x' {
                    self.sim.force_sell_all_stocks();
                    self.last_action = "FORCE SELL ALL STOCKS".to_owned();
                }
            },
            Key::Left => self.prev_view(),
            Key::Right => self.next_view(),
            Key::Up => self.select_prev(),
            Key::Down => self.select_next(),
            Key::Other => {},
        }
        false
    }

    fn prev_view(&mut self)
        ensures
            *final(self) == (App { view: old(self).view.spec_prev(), ..*old(self) }),
    {
        self.view = self.view.prev();
    }

    fn next_view(&mut self)
        ensures
            *final(self) == (App { view: old(self).view.spec_next(), ..*old(self) }),
    {
        self.view = self.view.next();
    }

    fn select_prev(&mut self)
        ensures
            *final(self) == (App {
                selected_household: if old(self).selected_household > 0 {
                    (old(self).selected_household - 1) as usize
                } else {
                    old(self).selected_household
                },
                ..*old(self)
            }),
    {
        if self.selected_household > 0 {
            self.selected_household -= 1;
        }
    }

    fn select_next(&mut self)
        ensures
            *final(self) == (App {
                selected_household: if old(self).selected_household + 1 < old(
                    self,
                ).sim.households@.len() {
                    (old(self).selected_household + 1) as usize
                } else {
                    old(self).selected_household
                },
                ..*old(self)
            }),
    {
        let count = self.sim.households.len();
        if self.selected_household < count && self.selected_household + 1 < count {
            self.selected_household += 1;
        }
    }
}

} // verus!
