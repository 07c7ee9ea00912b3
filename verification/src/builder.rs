use vstd::prelude::*;

use crate::render::builder::RenderEngineBuilder;

verus! {

/// The capacity of the engine's event buses unless configured otherwise.
pub const DEFAULT_EVENT_BUS_SIZE: usize = 64;

/// Configures an engine: its render engine and the capacity of its event buses.
pub struct EngineBuilder {
    render_engine_config: RenderEngineBuilder,
    event_bus_size: usize,
}

impl Default for EngineBuilder {
    fn default() -> (r: Self)
        ensures
            r.config().application_name@ == "Neuclidio Example"@,
            r.config().application_version_major == 1,
            r.config().application_version_minor == 0,
            r.config().application_version_patch == 0,
            r.bus_size() == DEFAULT_EVENT_BUS_SIZE,
    {
        EngineBuilder { render_engine_config: RenderEngineBuilder::new(), event_bus_size: DEFAULT_EVENT_BUS_SIZE }
    }
}

impl EngineBuilder {
    /// The render engine configuration.
    pub closed spec fn config(&self) -> &RenderEngineBuilder {
        &self.render_engine_config
    }

    /// The capacity of the event buses.
    pub closed spec fn bus_size(&self) -> usize {
        self.event_bus_size
    }

    /// The default configuration: the default render engine and buses of
    /// `DEFAULT_EVENT_BUS_SIZE` events.
    pub fn new() -> (r: Self)
        ensures
            r.config().application_name@ == "Neuclidio Example"@,
            r.config().application_version_major == 1,
            r.config().application_version_minor == 0,
            r.config().application_version_patch == 0,
            r.bus_size() == DEFAULT_EVENT_BUS_SIZE,
    {
        Self::default()
    }

    /// The same configuration with another render engine configuration.
    pub fn with_render_engine_config(self, render_engine_config: RenderEngineBuilder) -> (r: Self)
        ensures
            r.config() == render_engine_config,
            r.bus_size() == self.bus_size(),
    {
        let mut builder = self;
        builder.render_engine_config = render_engine_config;
        builder
    }

    /// The same configuration with buses of another capacity.
    pub fn with_event_bus_size(self, size: usize) -> (r: Self)
        ensures
            r.config() == self.config(),
            r.bus_size() == size,
    {
        let mut builder = self;
        builder.event_bus_size = size;
        builder
    }

    /// The render engine configuration.
    pub fn render_engine_config(&self) -> (r: &RenderEngineBuilder)
        ensures
            r == self.config(),
    {
        &self.render_engine_config
    }

    /// The capacity of the event buses.
    pub fn event_bus_size(&self) -> (r: usize)
        ensures
            r == self.bus_size(),
    {
        self.event_bus_size
    }
}

} // verus!
