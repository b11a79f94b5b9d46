//! Licence tiers and the features each tier unlocks.
use vstd::prelude::*;

use crate::themes::ThemeId;

verus! {

/// The licence tier: free, or premium (advanced scraping, exclusive themes,
/// cloud sync).
#[derive(Debug, Clone, Copy, PartialEq, Eq)]
pub enum LicenseTier {
    Free,
    Premium,
}

impl Default for LicenseTier {
    fn default() -> (r: Self)
        ensures
            r == LicenseTier::Free,
    {
        LicenseTier::Free
    }
}

/// The features available under a licence.
#[derive(Debug, Clone)]
pub struct FeatureFlags {
    pub tier: LicenseTier,
}

impl Default for FeatureFlags {
    fn default() -> (r: Self)
        ensures
            r.tier == LicenseTier::Free,
    {
        FeatureFlags { tier: LicenseTier::Free }
    }
}

impl FeatureFlags {
    /// Exclusive themes: premium only.
    pub fn premium_themes_unlocked(&self) -> (r: bool)
        ensures
            r == (self.tier == LicenseTier::Premium),
    {
        match self.tier {
            LicenseTier::Premium => true,
            LicenseTier::Free => false,
        }
    }

    /// Advanced automatic scraping: premium only.
    pub fn advanced_auto_scraper(&self) -> (r: bool)
        ensures
            r == (self.tier == LicenseTier::Premium),
    {
        match self.tier {
            LicenseTier::Premium => true,
            LicenseTier::Free => false,
        }
    }

    /// Cloud sync: premium only.
    pub fn cloud_sync(&self) -> (r: bool)
        ensures
            r == (self.tier == LicenseTier::Premium),
    {
        match self.tier {
            LicenseTier::Premium => true,
            LicenseTier::Free => false,
        }
    }

    /// The built-in presets are free for every tier.
    pub fn theme_allowed(&self, theme: ThemeId) -> (r: bool)
        ensures
            r,
    {
        match self.tier {
            LicenseTier::Premium => true,
            LicenseTier::Free => true,
        }
    }
}

} // verus!
