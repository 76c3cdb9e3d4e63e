use vstd::prelude::*;

verus! {

/// Unique identifier for a managed window.
#[derive(Debug, Clone, Copy, PartialEq, Eq, Structural, Hash)]
pub struct WindowId(pub u64);

/// Logical 2D rectangle in compositor coordinates.
#[derive(Debug, Clone, Copy, PartialEq, Eq, Structural)]
pub struct Rect {
    pub x: i32,
    pub y: i32,
    pub width: u32,
    pub height: u32,
}

impl Rect {
    pub fn new(x: i32, y: i32, width: u32, height: u32) -> (r: Rect)
        ensures
            r == (Rect { x, y, width, height }),
    {
        Rect { x, y, width, height }
    }

    /// The rectangle at the origin with no extent.
    pub open spec fn zero() -> Rect {
        Rect { x: 0, y: 0, width: 0, height: 0 }
    }
}

impl Default for Rect {
    fn default() -> (r: Rect)
        ensures
            r == Rect::zero(),
    {
        Rect { x: 0, y: 0, width: 0, height: 0 }
    }
}

/// Metadata and layout properties of a managed window.
#[derive(Debug, Clone, PartialEq, Eq)]
pub struct Window {
    pub id: WindowId,
    pub app_id: Option<String>,
    pub title: Option<String>,
    pub workspace_id: u32,
    pub geometry: Rect,
    pub floating: bool,
    pub fullscreen: bool,
    pub maximized: bool,
    /// Shown on every workspace.
    pub pinned: bool,
    /// Geometry to restore when leaving fullscreen or maximized state.
    pub saved_geometry: Option<Rect>,
    /// Center the window when it floats.
    pub center: bool,
    /// Requested initial size ("800 600" or "25% 25%").
    pub initial_size: Option<String>,
    /// Requested initial position ("100 100" or "72% 7%").
    pub initial_position: Option<String>,
    /// Opacity in percent (0..=100).
    pub opacity: Option<u8>,
    /// Windows sharing a group show one member at a time.
    pub group_id: Option<u64>,
}

impl Window {
    /// A window as `Window::new(id, workspace_id)` creates it.
    pub open spec fn fresh(self, id: WindowId, workspace_id: u32) -> bool {
        &&& self.id == id
        &&& self.app_id is None
        &&& self.title is None
        &&& self.workspace_id == workspace_id
        &&& self.geometry == Rect::zero()
        &&& !self.floating
        &&& !self.fullscreen
        &&& !self.maximized
        &&& !self.pinned
        &&& self.saved_geometry is None
        &&& !self.center
        &&& self.initial_size is None
        &&& self.initial_position is None
        &&& self.opacity is None
        &&& self.group_id is None
    }

    pub fn new(id: WindowId, workspace_id: u32) -> (w: Window)
        ensures
            w.fresh(id, workspace_id),
    {
        Window {
            id,
            app_id: None,
            title: None,
            workspace_id,
            geometry: Rect::default(),
            floating: false,
            fullscreen: false,
            maximized: false,
            pinned: false,
            saved_geometry: None,
            center: false,
            initial_size: None,
            initial_position: None,
            opacity: None,
            group_id: None,
        }
    }

    /// The window after its fullscreen state is toggled: entering fullscreen remembers the
    /// geometry (unless one is already saved); leaving it restores the saved geometry of a
    /// floating window and forgets it otherwise.
    pub open spec fn toggled_fullscreen(self) -> Window {
        if !self.fullscreen {
            Window {
                fullscreen: true,
                saved_geometry: if self.saved_geometry is None {
                    Some(self.geometry)
                } else {
                    self.saved_geometry
                },
                ..self
            }
        } else if self.floating {
            match self.saved_geometry {
                Some(g) => Window { fullscreen: false, geometry: g, saved_geometry: None, ..self },
                None => Window { fullscreen: false, ..self },
            }
        } else {
            Window { fullscreen: false, saved_geometry: None, ..self }
        }
    }

    /// The window after its maximized state is toggled: maximizing remembers the geometry
    /// (unless one is already saved); restoring gives a floating window its saved geometry
    /// back.
    pub open spec fn toggled_maximized(self) -> Window {
        if !self.maximized {
            Window {
                maximized: true,
                saved_geometry: if self.saved_geometry is None {
                    Some(self.geometry)
                } else {
                    self.saved_geometry
                },
                ..self
            }
        } else if self.floating {
            match self.saved_geometry {
                Some(g) => Window { maximized: false, geometry: g, saved_geometry: None, ..self },
                None => Window { maximized: false, ..self },
            }
        } else {
            Window { maximized: false, ..self }
        }
    }

    pub fn toggle_fullscreen(&mut self)
        ensures
            *final(self) == old(self).toggled_fullscreen(),
    {
        if !self.fullscreen {
            if self.saved_geometry.is_none() {
                self.saved_geometry = Some(self.geometry);
            }
            self.fullscreen = true;
        } else {
            self.fullscreen = false;
            if self.floating {
                if let Some(saved) = self.saved_geometry {
                    self.geometry = saved;
                    self.saved_geometry = None;
                }
            } else {
                self.saved_geometry = None;
            }
        }
    }

    pub fn toggle_maximized(&mut self)
        ensures
            *final(self) == old(self).toggled_maximized(),
    {
        if !self.maximized {
            if self.saved_geometry.is_none() {
                self.saved_geometry = Some(self.geometry);
            }
            self.maximized = true;
        } else {
            self.maximized = false;
            if self.floating {
                if let Some(saved) = self.saved_geometry {
                    self.geometry = saved;
                    self.saved_geometry = None;
                }
            }
        }
    }

    /// A field-by-field copy of the window.
    pub fn duplicate(&self) -> (w: Window)
        ensures
            w == *self,
    {
        Window {
            id: self.id,
            app_id: match &self.app_id {
                Some(s) => Some(s.clone()),
                None => None,
            },
            title: match &self.title {
                Some(s) => Some(s.clone()),
                None => None,
            },
            workspace_id: self.workspace_id,
            geometry: self.geometry,
            floating: self.floating,
            fullscreen: self.fullscreen,
            maximized: self.maximized,
            pinned: self.pinned,
            saved_geometry: self.saved_geometry,
            center: self.center,
            initial_size: match &self.initial_size {
                Some(s) => Some(s.clone()),
                None => None,
            },
            initial_position: match &self.initial_position {
                Some(s) => Some(s.clone()),
                None => None,
            },
            opacity: self.opacity,
            group_id: self.group_id,
        }
    }
}

} // verus!
