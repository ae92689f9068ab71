//! Advice on the static placement of a photovoltaic panel, from the latitude
//! of the site where it is installed.

pub mod advice;
pub mod latitude;
pub mod report;
pub mod scan;
pub mod tilt;

pub use advice::{advise, select_mode, Mode};
pub use latitude::{Hemisphere, Lat, Latitude};
pub use report::{decimal, inclination_line, orientation_line, render};
pub use scan::dir_to_bool;
pub use tilt::{naive_calculate, season_calculate, OrientationHint, TiltAdvisory};
