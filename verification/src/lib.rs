pub mod children;
pub mod context;
pub mod context_entities;
pub mod cursor;
pub mod event_dispatcher;
pub mod focus_tree;
pub mod input_event;
pub mod layout;
pub mod layout_dispatcher;
pub mod node;
pub mod on_change;
pub mod render;
pub mod styles;
pub mod tree;
pub mod widget;
pub mod widget_context;
pub mod widget_removal;
pub mod widget_state;
pub mod widgets;
