pub mod compressor;
pub mod resolver;
pub mod transporter;
