//! Reader for the MNIST handwritten-digit dataset.
//!
//! The library decompresses the four gzip archives of the dataset, decodes
//! their big-endian IDX record format into labels and raw pixel images, plans
//! which archives still have to be fetched, and renders an image as text.
//! Network and file access are left to the caller.

pub mod error;
pub mod fetch;
pub mod gzip;
pub mod idx;
pub mod reader;
pub mod render;

pub use error::LoadError;
pub use fetch::{
    archive_file, check_status, download_plan, join, ARCHIVE_COUNT, MNIST_DATA_URL,
};
pub use gzip::read_gzip;
pub use idx::{read_mnist_images, read_mnist_labels};
pub use reader::{decode_split, MnistReader};
pub use render::render_image;
