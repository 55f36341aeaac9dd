use vstd::prelude::*;

pub mod bool_poll;
pub mod history;
pub mod raster_color;
pub mod linear_set;
pub mod squid;
pub mod layer;
pub mod selection;
pub mod smooth;
pub mod accumulator;
pub mod capture;
pub mod context_menu;
pub mod app;
pub mod options;
pub mod frame_pacing;
pub mod color;
pub mod ocean;
