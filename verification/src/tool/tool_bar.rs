use vstd::prelude::*;
use crate::tool::Tool;

verus! {

/// Which buttons of the tool bar show as selected.
#[derive(Clone, Copy, Debug, PartialEq, Eq, Structural)]
pub struct ToolBar {
    pub pencil: bool,
    pub line: bool,
    pub color: bool,
}

impl ToolBar {
    /// Whether the button of the tool shows as selected.
    pub open spec fn is_selected(&self, tool: Tool) -> bool {
        match tool {
            Tool::Pencil => self.pencil,
            Tool::Line => self.line,
            Tool::Color => self.color,
        }
    }

    /// No button shows as selected.
    pub open spec fn is_clear(&self) -> bool {
        !self.pencil && !self.line && !self.color
    }

    /// The tool bar with the button of the tool switched on or off.
    pub open spec fn with(&self, tool: Tool, selected: bool) -> ToolBar {
        match tool {
            Tool::Pencil => ToolBar { pencil: selected, ..*self },
            Tool::Line => ToolBar { line: selected, ..*self },
            Tool::Color => ToolBar { color: selected, ..*self },
        }
    }

    /// The tool bar with the button of the tool selected and no other.
    pub open spec fn only(tool: Tool) -> ToolBar {
        (ToolBar { pencil: false, line: false, color: false }).with(tool, true)
    }

    /// The drawing tool in use, if any.
    pub open spec fn mode(&self) -> Option<Tool> {
        if self.pencil {
            Some(Tool::Pencil)
        } else if self.line {
            Some(Tool::Line)
        } else {
            None
        }
    }

    pub fn new() -> (tool_bar: ToolBar)
        ensures
            tool_bar.is_clear(),
    {
        ToolBar { pencil: false, line: false, color: false }
    }

    pub fn selected(&self, tool: Tool) -> (selected: bool)
        ensures
            selected == self.is_selected(tool),
    {
        match tool {
            Tool::Pencil => self.pencil,
            Tool::Line => self.line,
            Tool::Color => self.color,
        }
    }

    /// Switches the button of the tool on or off.
    pub fn set_selected(&mut self, tool: Tool, selected: bool)
        ensures
            *final(self) == old(self).with(tool, selected),
    {
        match tool {
            Tool::Pencil => {
                self.pencil = selected;
            },
            Tool::Line => {
                self.line = selected;
            },
            Tool::Color => {
                self.color = selected;
            },
        }
    }

    /// Selects the button of the tool and no other.
    pub fn select_only(&mut self, tool: Tool)
        ensures
            *final(self) == ToolBar::only(tool),
    {
        self.pencil = false;
        self.line = false;
        self.color = false;
        self.set_selected(tool, true);
    }

    /// The drawing tool in use, if any.
    pub fn active(&self) -> (tool: Option<Tool>)
        ensures
            tool == self.mode(),
    {
        if self.pencil {
            Some(Tool::Pencil)
        } else if self.line {
            Some(Tool::Line)
        } else {
            None
        }
    }
}

} // verus!
