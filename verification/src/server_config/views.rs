use vstd::prelude::*;
use crate::server_config::aggregate::{server_config_applied, ServerConfig};
use crate::server_config::event::ServerConfigEvent;

verus! {

impl ServerConfig {
    /// Updates the read model of the server configuration with an event; it follows the
    /// aggregate.
    pub fn update(&mut self, event: ServerConfigEvent)
        ensures
            *final(self) == server_config_applied(*old(self), event),
    {
        self.apply(event);
    }
}

} // verus!
