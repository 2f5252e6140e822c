//! Settings of a run.

use vstd::prelude::*;

verus! {

/// Where the catalogue's records are read from.
#[derive(Debug, Clone)]
pub struct DataPaths {
    pub goods: String,
    pub needs: String,
    pub households: String,
    pub production: String,
    pub stocks: String,
}

/// The settings of a run.
#[derive(Debug, Clone)]
pub struct Config {
    /// Simulation ticks per second.
    pub tick_hz: u64,
    /// Redraws per second.
    pub ui_hz: u64,
    pub seed: u64,
    pub start_households: usize,
    pub debug: bool,
    pub data_paths: DataPaths,
}

impl Default for Config {
    /// Twenty ticks and thirty redraws a second, seed 1337, two hundred
    /// households, and the records under `data/`.
    fn default() -> (cfg: Config)
        ensures
            cfg.tick_hz == 20,
            cfg.ui_hz == 30,
            cfg.seed == 1337,
            cfg.start_households == 200,
            !cfg.debug,
            cfg.data_paths.goods@ == "data/goods.xml"@,
            cfg.data_paths.needs@ == "data/needs.xml"@,
            cfg.data_paths.households@ == "data/households.xml"@,
            cfg.data_paths.production@ == "data/production.xml"@,
            cfg.data_paths.stocks@ == "data/stocks.xml"@,
    {
        Config {
            tick_hz: 20,
            ui_hz: 30,
            seed: 1337,
            start_households: 200,
            debug: false,
            data_paths: DataPaths {
                goods: "data/goods.xml".to_owned(),
                needs: "data/needs.xml".to_owned(),
                households: "data/households.xml".to_owned(),
                production: "data/production.xml".to_owned(),
                stocks: "data/stocks.xml".to_owned(),
            },
        }
    }
}

impl Config {
    /// Raises both rates to at least one a second; everything else stays.
    pub fn floor_rates(&mut self)
        ensures
            final(self).tick_hz == (if old(self).tick_hz < 1 {
                1
            } else {
                old(self).tick_hz
            }),
            final(self).ui_hz == (if old(self).ui_hz < 1 {
                1
            } else {
                old(self).ui_hz
            }),
            final(self).seed == old(self).seed,
            final(self).start_households == old(self).start_households,
            final(self).debug == old(self).debug,
            final(self).data_paths == old(self).data_paths,
    {
        if self.tick_hz < 1 {
            self.tick_hz = 1;
        }
        if self.ui_hz < 1 {
            self.ui_hz = 1;
        }
    }
}

} // verus!
