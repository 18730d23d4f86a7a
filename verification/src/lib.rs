//! Ambient lighting colour pipeline: reduce a captured frame to its dominant
//! colour and express that colour in the units a smart light accepts.

pub mod bucket;
pub mod convert;
pub mod cycle;
pub mod extract;
pub mod frame;
pub mod votes;
