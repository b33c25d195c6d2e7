//! What holds of the library as a whole.

pub mod build_laws;
pub mod compile_laws;
pub mod config_laws;
pub mod embed_laws;
pub mod entry_laws;
pub mod file_laws;
pub mod listing_laws;
pub mod model_laws;
pub mod path_laws;
pub mod place_laws;
pub mod setup_laws;
pub mod spelling;
pub mod syntax_laws;
pub mod text_laws;
pub mod token_laws;
pub mod vector_laws;
