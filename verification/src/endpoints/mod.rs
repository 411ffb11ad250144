pub mod i18n;
pub mod net;
pub mod settings;
pub mod gitea;
pub mod content;
pub mod resources;
pub mod burrito;
pub mod git;
pub mod navigation;
pub mod sse;
pub mod system;
pub mod video;
