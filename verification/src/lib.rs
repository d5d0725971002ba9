//! Media decoding helpers: BMP header repair, video frame search, frame
//! packing, seek planning, subtitle stream selection, timeline sprites and
//! audio waveform rasterisation.

pub mod bmp;
pub mod errors;
pub mod imaging;
pub mod pdf;
pub mod raster;
pub mod seek;
pub mod subtitle;
pub mod thumbnail;
pub mod timeline;
pub mod video;
pub mod waveform;
