//! The user's settings and the places where the program keeps its files.

use vstd::prelude::*;

verus! {

/// The number of accent palettes to choose from.
pub const PALETTE_COUNT: usize = 3;

/// What the user has chosen.
#[derive(Clone, Copy, Debug, PartialEq, Eq, Structural)]
pub struct Settings {
    pub palette_index: usize,
}

/// The directory of the program's files: a directory below a base.
#[derive(Clone, Debug)]
pub struct DataDirectory<P> {
    pub base: P,
    pub name: &'static str,
}

/// One of the program's files.
#[derive(Clone, Debug)]
pub struct DataFile<P> {
    pub directory: DataDirectory<P>,
    pub name: &'static str,
}

/// The palette that is chosen after one.
pub open spec fn next_palette(index: int) -> int {
    (index + 1) % 3
}

impl Default for Settings {
    fn default() -> (r: Self)
        ensures
            r.palette_index == 0,
    {
        Settings { palette_index: 0 }
    }
}

impl Settings {
    /// The settings to start with: those that were stored, or else the defaults.
    pub fn load(stored: Option<Settings>) -> (r: Self)
        ensures
            r == match stored {
                Some(settings) => settings,
                None => Settings { palette_index: 0 },
            },
    {
        match stored {
            Some(settings) => settings,
            None => Settings::default(),
        }
    }

    /// The palette to paint with; numbers beyond the last one start over.
    pub fn palette(&self) -> (r: usize)
        ensures
            r == self.palette_index as int % 3,
            r < PALETTE_COUNT,
    {
        self.palette_index % PALETTE_COUNT
    }

    /// The settings with the next palette chosen.
    pub fn with_next_palette(&self) -> (r: Self)
        requires
            self.palette_index < usize::MAX,
        ensures
            r.palette_index == next_palette(self.palette_index as int),
    {
        Settings { palette_index: (self.palette_index + 1) % PALETTE_COUNT }
    }
}

/// The directory of the program's files: below the user's local application data, or
/// below the directory for temporary files where that is not known.
pub fn data_directory<P>(local_app_data: Option<P>, temporary: P) -> (r: DataDirectory<P>)
    ensures
        r.base == match local_app_data {
            Some(base) => base,
            None => temporary,
        },
        r.name@ == "WeeklyUsageBar"@,
{
    let base = match local_app_data {
        Some(base) => base,
        None => temporary,
    };
    DataDirectory { base, name: "WeeklyUsageBar" }
}

/// Where the planner keeps its state.
pub fn planner_state_path<P>(directory: DataDirectory<P>) -> (r: DataFile<P>)
    ensures
        r.directory == directory,
        r.name@ == "planner.json"@,
{
    DataFile { directory, name: "planner.json" }
}

/// Where a background worker reports its status.
pub fn worker_status_path<P>(directory: DataDirectory<P>) -> (r: DataFile<P>)
    ensures
        r.directory == directory,
        r.name@ == "worker-status.json"@,
{
    DataFile { directory, name: "worker-status.json" }
}

/// Where the settings are stored.
pub fn settings_path<P>(directory: DataDirectory<P>) -> (r: DataFile<P>)
    ensures
        r.directory == directory,
        r.name@ == "settings.json"@,
{
    DataFile { directory, name: "settings.json" }
}

/// Choosing the next palette goes through all of them and back to the first.
pub proof fn law_palettes_come_round(index: int)
    requires
        0 <= index < 3,
    ensures
        next_palette(next_palette(next_palette(index))) == index,
        next_palette(index) != index,
        0 <= next_palette(index) < 3,
{
}

/// The next palette is the one behind the chosen one, and the first behind the last; a
/// number beyond the last palette stands for the palette that it comes round to.
pub proof fn law_the_next_palette_stands_behind_the_chosen_one(index: int)
    requires
        0 <= index,
    ensures
        next_palette(0) == 1,
        next_palette(1) == 2,
        next_palette(2) == 0,
        next_palette(index + 3) == next_palette(index),
        PALETTE_COUNT == 3,
{
}

} // verus!
