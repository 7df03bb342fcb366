//! The visual components. Each keeps its settings, changed by builder
//! methods that return the updated value, and renders them as lines.
pub mod boxed;
pub mod confirm;
pub mod divider;
pub mod frame;
pub mod input;
pub mod label;
pub mod list;
pub mod note;
pub mod section;
pub mod table;
pub mod tag;

pub use boxed::Boxed;
pub use confirm::Confirm;
pub use divider::Divider;
pub use input::Input;
pub use label::Label;
pub use list::List;
pub use note::Note;
pub use section::Section;
pub use table::Table;
pub use tag::Tag;
