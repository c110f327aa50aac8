//! A shareable handle to a set of settings.

use crate::error::RenderError;
use crate::std_specs::share;
use crate::settings::{WikitextMode, WikitextSettings as CoreSettings};
use std::sync::Arc;
use vstd::prelude::*;

verus! {

/// Settings behind a reference count, cheap to hand across a language
/// boundary.
#[derive(Debug, Clone)]
pub struct WikitextSettings {
    inner: Arc<CoreSettings>,
}

impl WikitextSettings {
    /// The settings that this handle points to.
    pub closed spec fn settings(&self) -> CoreSettings {
        *self.inner
    }

    /// The settings that this handle points to.
    pub fn get(&self) -> (r: &CoreSettings)
        ensures
            *r == self.settings(),
    {
        &self.inner
    }

    /// Another handle to the same settings.
    pub fn copy(&self) -> (r: WikitextSettings)
        ensures
            r.settings() == self.settings(),
    {
        WikitextSettings { inner: share(&self.inner) }
    }

    /// A handle to the given settings.
    pub fn new(object: CoreSettings) -> (r: Result<WikitextSettings, RenderError>)
        ensures
            r matches Ok(handle) && handle.settings() == object,
    {
        Ok(WikitextSettings { inner: Arc::new(object) })
    }

    /// A handle to the settings that go with the mode named `mode`; an
    /// error where no mode has that name.
    pub fn from_mode(mode: String) -> (r: Result<WikitextSettings, RenderError>)
        ensures
            match WikitextMode::spec_from_name(mode@) {
                Some(known) => r matches Ok(handle) && handle.settings().mode == known
                    && handle.settings().enable_page_syntax == (known == WikitextMode::Page
                    || known == WikitextMode::Draft || known == WikitextMode::List)
                    && handle.settings().use_true_ids == (known == WikitextMode::Page)
                    && handle.settings().allow_local_paths
                    == handle.settings().enable_page_syntax
                    && handle.settings().interwiki@.len() == 0,
                None => r matches Err(RenderError::StaticMsg(msg)) && msg@ == "Unknown mode"@,
            },
    {
        match WikitextMode::from_name(mode.as_str()) {
            Some(known) => Ok(WikitextSettings { inner: Arc::new(CoreSettings::from_mode(known)) }),
            None => Err(RenderError::StaticMsg("Unknown mode")),
        }
    }
}

} // verus!
