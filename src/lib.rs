//! Terminal presentation components (boxes, sections, notes, tables, lists,
//! tags, labels, dividers and prompt frames) built on a small layout engine
//! that pads and wraps text by its display width.
pub mod components;
pub mod layout;
pub mod strings;
pub mod style;
pub mod unicode;

pub use components::Boxed;
pub use components::Confirm;
pub use components::Divider;
pub use components::Input;
pub use components::Label;
pub use components::List;
pub use components::Note;
pub use components::Section;
pub use components::Table;
pub use components::Tag;
