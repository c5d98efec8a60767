//! What the screens show: texts, styles by role, and geometry. Painting them is left to the
//! terminal backend.

pub mod chat;
pub mod modals;
pub mod popups;
pub mod scene;
pub mod screens;
pub mod theme;
