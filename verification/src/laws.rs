//! What holds of the library as a whole.

pub mod answer;
pub mod basics;
pub mod behaviour;
pub mod borrowed;
pub mod bulb;
pub mod catalog;
pub mod command;
pub mod imports;
pub mod listing;
pub mod native;
pub mod offer;
pub mod publish;
pub mod remote;
pub mod report;
pub mod scene;
pub mod setup;
pub mod wizard;
pub mod words;
