//! Highlight detection for Team Fortress 2 demo recordings: headshots and
//! airshots, recorded from the game events and entity updates of a demo, and
//! reported once per hit in tick order.

pub mod text;
pub mod weapons;
pub mod highlight;
pub mod dedup;
pub mod userinfo;
pub mod analyser;
pub mod report;
pub mod laws;
