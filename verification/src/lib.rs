pub mod blocks;
pub mod caret_laws;
pub mod chat;
pub mod chat_laws;
pub mod client;
pub mod client_laws;
pub mod command;
pub mod composer;
pub mod connecting;
pub mod cuts;
pub mod drawing_laws;
pub mod editor;
pub mod editor_laws;
pub mod effects;
pub mod events;
pub mod graphemes;
pub mod history_laws;
pub mod ids;
pub mod json;
pub mod keyed;
pub mod management;
pub mod layout_laws;
pub mod managing_laws;
pub mod markdown;
pub mod markdown_laws;
pub mod menu;
pub mod menu_laws;
pub mod models;
pub mod open_session;
pub mod opening_laws;
pub mod prompts;
pub mod queue;
pub mod rows;
pub mod selection;
pub mod sending;
pub mod sending_laws;
pub mod sessions;
pub mod settings;
pub mod state;
pub mod state_laws;
pub mod text;
pub mod theme;
pub mod transcript;
pub mod wire_laws;
pub mod word_laws;
pub mod words;
