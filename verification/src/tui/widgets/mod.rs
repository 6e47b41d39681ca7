//! What is shown in the areas of the window, as lines of styled text.
pub mod input_box;
pub mod message_list;
pub mod space_list;
pub mod status_bar;
pub mod status_panel;
