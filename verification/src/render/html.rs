//! The HTML renderer.

pub mod builder;
pub mod context;
pub mod element;

pub use self::context::{ArticleHandle, FootnoteContext, HtmlContext, HtmlOutput, UserInfo};
pub use self::element::input::render_radio_button;
pub use self::element::user::render_user;
