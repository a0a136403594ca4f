//! GNSS quality control reports: the data that a processing run gathers,
//! the rules by which it is gathered, and the layout decisions of its
//! renditions.

// Plain models of the inputs, and the keyed storage and orders they use.
pub mod model;
pub mod header;
pub mod keyed;
pub mod order;
pub mod sorting;
pub mod labels;

// What a processing run gathers.
pub mod summaries;
pub mod observations;
pub mod sampling;
pub mod orbit_proj;
pub mod orbital;
pub mod rtk;
pub mod nav;
pub mod rovers;
pub mod rover;
pub mod source_observations;
pub mod file_report;
pub mod report;

// What the renditions show.
pub mod selector;
pub mod constellations_sel;
pub mod rendering;
pub mod pdf;
pub mod pdf_summary;
pub mod pdf_rtk;
pub mod pdf_toc;
pub mod html;
pub mod assets;
