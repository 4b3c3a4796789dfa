pub mod destroy_spaces;
pub mod focus_space;
pub mod focus_window_in_direction;
pub mod label_spaces;
pub mod lookup;
pub mod move_space_in_direction;
pub mod move_window_in_direction;
pub mod move_window_to_space;
pub mod reorder;
pub mod set_space_label;
