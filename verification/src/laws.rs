//! What holds of the library as a whole, said of what goes in and what comes
//! out.

pub mod attributes;
pub mod calls;
pub mod events;
pub mod faults;
pub mod flow;
pub mod fonts;
pub mod keys;
pub mod kinds;
pub mod lists;
pub mod loading;
pub mod numbers;
pub mod options;
pub mod patches;
pub mod power;
pub mod readings;
pub mod refusals;
pub mod results;
pub mod sayings;
pub mod shown;
pub mod sources;
pub mod spellings;
pub mod strays;
pub mod system;
pub mod tables;
pub mod upkeep;
pub mod words;
