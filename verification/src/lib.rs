pub mod text;
pub mod recognizer;
pub mod silence;
pub mod denoise;
pub mod input_config;
pub mod model_files;
