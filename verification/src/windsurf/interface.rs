//! The integration interface the editor adapter drives, and its
//! default implementation.
//!
//! The adapter translates editor events into one [`AnalysisContext`]
//! per event and hands it to [`WindsurfIntegrationImpl::analyze`]; it
//! learns nothing of editor semantics beyond these calls.

use vstd::prelude::*;

verus! {

use crate::windsurf::{Position, Range, WindsurfConfig, WindsurfPlugin};
use crate::DevFlowError;

/// One analysis request from the editor.
#[derive(Debug)]
pub struct AnalysisContext {
    /// Path of the file under analysis.
    pub file_path: String,
    /// Content of the file.
    pub content: String,
    /// Current cursor position, if the event carries one.
    pub position: Option<Position>,
    /// Visible range in the editor, if the event carries one.
    pub visible_range: Option<Range>,
}

/// What an editor integration offers. Implementations differ in what
/// they do with the events; the recording mock keeps them, the default
/// implementation forwards them into analysis requests.
pub trait Interface {
    /// Handles a text change in the editor.
    fn handle_text_change(&mut self, content: &String) -> Result<(), DevFlowError>;

    /// Handles a cursor move in the editor.
    fn handle_cursor_move(&mut self, line: u32, character: u32) -> Result<(), DevFlowError>;

    /// The file currently open.
    fn get_current_file(&self) -> Result<Option<String>, DevFlowError>;

    /// Sets the file currently open.
    fn set_current_file(&mut self, path: Option<String>) -> Result<(), DevFlowError>;

    /// The current configuration.
    fn get_config(&self) -> Result<WindsurfConfig, DevFlowError>;

    /// Replaces the configuration.
    fn set_config(&mut self, config: WindsurfConfig) -> Result<(), DevFlowError>;

    /// The plugin identity.
    fn get_plugin(&self) -> &WindsurfPlugin;

    /// Flips real-time analysis on or off.
    fn toggle_real_time_analysis(&mut self) -> Result<(), DevFlowError>;

    /// Handles a change of the visible range.
    fn handle_visible_range_change(&mut self, range: Range) -> Result<(), DevFlowError>;
}

/// An integration that can be started.
pub trait WindsurfIntegration: Interface {
    /// Initializes the integration.
    fn initialize(&self) -> Result<(), DevFlowError>;
}

/// The default integration: remembers the open file and configuration,
/// and answers analysis requests.
#[derive(Debug)]
pub struct WindsurfIntegrationImpl {
    pub config: WindsurfConfig,
    pub current_file: Option<String>,
    pub plugin: WindsurfPlugin,
}

impl WindsurfIntegrationImpl {
    /// Creates an integration with default configuration and no open
    /// file.
    pub fn new(plugin: WindsurfPlugin) -> (r: Result<Self, DevFlowError>)
        ensures
            r matches Ok(w) && w.config.real_time_enabled == false && w.current_file is None,
    {
        Ok(
            WindsurfIntegrationImpl {
                config: WindsurfConfig::default(),
                current_file: None,
                plugin,
            },
        )
    }

    /// Handles one analysis request. With real-time analysis off the
    /// request is acknowledged and dropped; it never fails.
    pub fn analyze(&self, context: &AnalysisContext) -> (r: Result<(), DevFlowError>)
        ensures
            r is Ok,
    {
        let _ = context;
        if !self.config.real_time_enabled {
            return Ok(());
        }
        Ok(())
    }

    /// The path the integration reports for the open file: the current
    /// file, or empty.
    pub fn current_path_or_empty(&self) -> (r: String)
        ensures
            match self.current_file {
                Some(p) => r@ == p@,
                None => r@ == Seq::<char>::empty(),
            },
    {
        match &self.current_file {
            Some(p) => p.clone(),
            None => String::new(),
        }
    }
}

impl Interface for WindsurfIntegrationImpl {
    /// Forwards the change as an analysis request; never fails, and
    /// leaves the stored state as it was.
    fn handle_text_change(&mut self, content: &String) -> (r: Result<(), DevFlowError>)
        ensures
            r is Ok,
            *final(self) == *old(self),
    {
        let ctx = AnalysisContext {
            file_path: self.current_path_or_empty(),
            content: content.clone(),
            position: None,
            visible_range: None,
        };
        self.analyze(&ctx)
    }

    /// Forwards the move as an analysis request; never fails, and
    /// leaves the stored state as it was.
    fn handle_cursor_move(&mut self, line: u32, character: u32) -> (r: Result<(), DevFlowError>)
        ensures
            r is Ok,
            *final(self) == *old(self),
    {
        let ctx = AnalysisContext {
            file_path: self.current_path_or_empty(),
            content: String::new(),
            position: Some(Position { line, character }),
            visible_range: None,
        };
        self.analyze(&ctx)
    }

    /// The open file, as last set.
    fn get_current_file(&self) -> (r: Result<Option<String>, DevFlowError>)
        ensures
            r matches Ok(p) && (match (p, self.current_file) {
                (Some(a), Some(b)) => a@ == b@,
                (None, None) => true,
                _ => false,
            }),
    {
        match &self.current_file {
            Some(p) => Ok(Some(p.clone())),
            None => Ok(None),
        }
    }

    /// Replaces the open file and succeeds.
    fn set_current_file(&mut self, path: Option<String>) -> (r: Result<(), DevFlowError>)
        ensures
            r is Ok,
            final(self).current_file == path,
            final(self).config == old(self).config,
    {
        self.current_file = path;
        Ok(())
    }

    /// The current configuration.
    fn get_config(&self) -> (r: Result<WindsurfConfig, DevFlowError>)
        ensures
            r matches Ok(c) && c == self.config,
    {
        Ok(self.config)
    }

    /// Replaces the configuration and succeeds.
    fn set_config(&mut self, config: WindsurfConfig) -> (r: Result<(), DevFlowError>)
        ensures
            r is Ok,
            final(self).config == config,
            final(self).current_file == old(self).current_file,
    {
        self.config = config;
        Ok(())
    }

    /// The plugin given at construction.
    fn get_plugin(&self) -> (r: &WindsurfPlugin)
        ensures
            r.name@ == self.plugin.name@,
            r.version@ == self.plugin.version@,
    {
        &self.plugin
    }

    /// Flips the real-time flag and succeeds.
    fn toggle_real_time_analysis(&mut self) -> (r: Result<(), DevFlowError>)
        ensures
            r is Ok,
            final(self).config.real_time_enabled == !old(self).config.real_time_enabled,
            final(self).current_file == old(self).current_file,
    {
        self.config.real_time_enabled = !self.config.real_time_enabled;
        Ok(())
    }

    /// Forwards the range change as an analysis request; never fails,
    /// and leaves the stored state as it was.
    fn handle_visible_range_change(&mut self, range: Range) -> (r: Result<(), DevFlowError>)
        ensures
            r is Ok,
            *final(self) == *old(self),
    {
        let ctx = AnalysisContext {
            file_path: self.current_path_or_empty(),
            content: String::new(),
            position: None,
            visible_range: Some(range),
        };
        self.analyze(&ctx)
    }
}

impl WindsurfIntegration for WindsurfIntegrationImpl {
    /// Succeeds; there is nothing to set up.
    fn initialize(&self) -> (r: Result<(), DevFlowError>)
        ensures
            r is Ok,
    {
        Ok(())
    }
}

} // verus!
