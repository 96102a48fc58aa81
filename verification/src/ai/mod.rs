pub mod ollama;
pub mod organizer;
