//! Codec for the pixel payload of a FITS image: record padding, big-endian
//! element encoding, and the image buffer that holds one typed array.
pub mod array;
pub mod bytes;
pub mod element;
pub mod image;
