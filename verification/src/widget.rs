use vstd::prelude::*;

verus! {

/// The state of a widget that has none.
#[derive(Default, PartialEq, Eq, Clone)]
pub struct EmptyState;

/// What is known of a widget's current and previous entity when deciding whether the widget
/// changed. Each comparison is `Some(equal)` when both entities have the data, `None`
/// otherwise.
#[derive(Debug, Clone, Copy, PartialEq, Eq)]
pub struct WidgetParam {
    /// Some widget was just mounted.
    pub mounted: bool,
    /// The widget names of the two entities.
    pub same_name: Option<bool>,
    /// The styles of the two entities.
    pub same_style: Option<bool>,
    /// The computed styles of the two entities.
    pub same_computed_style: Option<bool>,
    /// The children of the two entities.
    pub same_children: Option<bool>,
    /// The props of the two entities.
    pub same_props: Option<bool>,
    /// The current entity has a state entity.
    pub has_current_state: bool,
    /// The previous entity has a state entity.
    pub has_previous_state: bool,
    /// The states of the two state entities, when both exist and hold a state.
    pub same_state: Option<bool>,
}

impl WidgetParam {
    /// Whether the widget changed: a mount happened, or a name, style, computed style, child
    /// list or prop differs, or the widget gained a state, or its state differs.
    pub fn has_changed(&self) -> (r: bool)
        ensures
            r == (self.mounted || self.same_name == Some(false) || self.same_style == Some(false)
                || self.same_computed_style == Some(false) || self.same_children == Some(false)
                || self.same_props == Some(false) || (self.has_current_state && !self.has_previous_state)
                || (self.has_current_state && self.has_previous_state && self.same_state == Some(false))),
    {
        if self.mounted {
            return true;
        }
        if let Some(false) = self.same_name {
            return true;
        }
        if let Some(false) = self.same_style {
            return true;
        }
        if let Some(false) = self.same_computed_style {
            return true;
        }
        if let Some(false) = self.same_children {
            return true;
        }
        if let Some(false) = self.same_props {
            return true;
        }
        if self.has_current_state && !self.has_previous_state {
            return true;
        }
        if self.has_current_state && self.has_previous_state {
            if let Some(false) = self.same_state {
                return true;
            }
        }
        false
    }
}

} // verus!
