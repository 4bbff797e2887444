//! Which actions the desktop program offers.
use vstd::prelude::*;

verus! {

/// What the actions depend on.
#[derive(Clone, Copy, Debug, PartialEq, Eq, Structural)]
pub struct AppState {
    /// The computers come from the service, not from a file.
    pub service_mode: bool,
    pub load_failed: bool,
    pub document_loaded: bool,
    pub document_new: bool,
    /// The saved configuration allows looking for computers.
    pub discovery: bool,
    pub config_dirty: bool,
    pub fields_valid: bool,
    pub layout_dirty: bool,
    pub layout_saveable: bool,
    pub sharing: bool,
    pub pairing: bool,
    pub has_peers: bool,
}

/// Pages of the program.
#[derive(Clone, Copy, Debug, PartialEq, Eq, Structural)]
pub enum Page {
    Computers,
    Input,
    Connection,
    Advanced,
    Layout,
    Nearby,
}

#[derive(Clone, Copy, Debug, PartialEq, Eq, Structural)]
pub enum DiscoveryStep {
    Keep,
    Start,
    Stop,
}

impl AppState {
    pub open spec fn may_discover(self) -> bool {
        !self.load_failed && self.document_loaded && !self.document_new && self.discovery
    }

    /// Whether computers are looked for, given what was decided before.
    pub fn discovery_step(&self, before: Option<bool>) -> (result: (DiscoveryStep, bool))
        ensures
            result.1 == self.may_discover(),
            result.0 == if before == Some(self.may_discover()) {
                DiscoveryStep::Keep
            } else if self.may_discover() {
                DiscoveryStep::Start
            } else {
                DiscoveryStep::Stop
            },
    {
        let allowed = !self.load_failed && self.document_loaded && !self.document_new
            && self.discovery;
        match before {
            Some(known) => {
                if known == allowed {
                    return (DiscoveryStep::Keep, allowed);
                }
            },
            None => {},
        }
        if allowed {
            (DiscoveryStep::Start, allowed)
        } else {
            (DiscoveryStep::Stop, allowed)
        }
    }

    pub open spec fn may_edit(self) -> bool {
        !self.sharing && !self.pairing
    }

    pub fn editing_allowed(&self) -> (result: bool)
        ensures
            result == self.may_edit(),
    {
        !self.sharing && !self.pairing
    }

    pub fn dirty(&self) -> (result: bool)
        ensures
            result == (self.config_dirty || self.layout_dirty),
    {
        self.config_dirty || self.layout_dirty
    }

    /// A configuration can be saved: it is a file's, it is valid, and there is
    /// something to save.
    pub fn can_save_config(&self) -> (result: bool)
        ensures
            result == (self.may_edit() && !self.service_mode && !self.load_failed
                && self.document_loaded && self.fields_valid && (self.document_new
                || self.config_dirty)),
    {
        self.editing_allowed() && !self.service_mode && !self.load_failed && self.document_loaded
            && self.fields_valid && (self.document_new || self.config_dirty)
    }

    pub fn can_save_layout(&self) -> (result: bool)
        ensures
            result == (self.may_edit() && !self.load_failed && self.document_loaded
                && self.layout_saveable),
    {
        self.editing_allowed() && !self.load_failed && self.document_loaded && self.layout_saveable
    }

    /// Pairing starts from a saved state, and not while input is shared.
    pub fn can_pair(&self) -> (result: bool)
        ensures
            result == ((self.service_mode || (!self.document_new && !self.config_dirty))
                && !self.sharing),
    {
        (self.service_mode || (!self.document_new && !self.config_dirty)) && !self.sharing
    }

    /// Sharing starts from a saved state with paired computers, with the
    /// system's permission.
    pub fn can_share(&self, permitted: bool) -> (result: bool)
        ensures
            result == (permitted && !self.config_dirty && !self.layout_dirty && !self.pairing
                && !self.document_new && self.has_peers),
    {
        permitted && !self.dirty() && !self.pairing && !self.document_new && self.has_peers
    }

    /// Unsaved changes are only given up when the user says so.
    pub fn confirm_before_discarding(&self, confirmed: bool) -> (ask: bool)
        ensures
            ask == ((self.config_dirty || self.layout_dirty) && !confirmed),
    {
        self.dirty() && !confirmed
    }

    /// Pages about a file's settings are not shown for the service.
    pub fn shows(&self, page: Page) -> (result: bool)
        ensures
            result == !(self.service_mode && (page == Page::Input || page == Page::Connection
                || page == Page::Advanced)),
    {
        match page {
            Page::Input => !self.service_mode,
            Page::Connection => !self.service_mode,
            Page::Advanced => !self.service_mode,
            _ => true,
        }
    }
}

} // verus!
