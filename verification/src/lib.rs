//! Immediate-mode game UI: the widget logic, with its contracts.

pub mod affine;
pub mod angles;
pub mod app_shell;
pub mod asset_grid;
pub mod badge;
pub mod banner;
pub mod binding;
pub mod breadcrumb;
pub mod busy;
pub mod button;
pub mod checkbox;
pub mod color;
pub mod color_picker;
pub mod combo_box;
pub mod context;
pub mod curve_editor;
pub mod doc_tabs;
pub mod dock_panel;
pub mod drag;
pub mod drag_handle;
pub mod draw_gradients;
pub mod draw_images;
pub mod draw_list;
pub mod draw_stacks;
pub mod draw_text;
pub mod dropdown;
pub mod fills;
pub mod focus;
pub mod geometry;
pub mod gradient_ramp;
pub mod group;
pub mod hit_zone;
pub mod icon;
pub mod image;
pub mod image_button;
pub mod input;
pub mod list;
pub mod material;
pub mod menu_screens;
pub mod paint_order;
pub mod rounding;
pub mod scalar;
pub mod strokes;
pub mod style;
pub mod text;
