//! A block-world rhythm game engine: beatmap timing and geometry, the spawn
//! scheduler, hit judgement, scoring and the session state machine, with
//! machine-checked contracts.

pub mod audio;
pub mod beatmap;
pub mod beatmap_selection;
pub mod color;
pub mod commands;
pub mod configs;
pub mod digit;
pub mod hit_object;
pub mod hit_score;
pub mod hitcircle;
pub mod inventory;
pub mod minecraft;
pub mod number;
pub mod order;
pub mod osu;
pub mod song_selection;
pub mod text;
