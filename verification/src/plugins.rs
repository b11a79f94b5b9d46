//! The extension points offered to third parties: a registry of scraper
//! identifiers and the contracts of scraper and theme plugins.
use vstd::prelude::*;

use crate::catalog::GameEntry;
use crate::config::LauncherConfig;
use crate::paths::views;
use crate::themes::ThemeId;

verus! {

/// Registry of extensions.
pub struct PluginHost {
    scrapers: Vec<String>,
}

impl PluginHost {
    /// The registered scraper identifiers, in registration order.
    pub closed spec fn scraper_ids(&self) -> Seq<Seq<char>> {
        views(self.scrapers@)
    }

    /// The registered scrapers.
    pub closed spec fn scraper_strings(&self) -> Seq<String> {
        self.scrapers@
    }

    /// Registers a scraper identifier after the existing ones.
    pub fn register_scraper_id(&mut self, id: String)
        ensures
            final(self).scraper_ids() == old(self).scraper_ids().push(id@),
            final(self).scraper_strings() == old(self).scraper_strings().push(id),
    {
        self.scrapers.push(id);
        assert(views(self.scrapers@) =~= views(old(self).scrapers@).push(id@));
    }

    /// The registered scraper identifiers, in registration order.
    pub fn list_scraper_ids(&self) -> (r: &[String])
        ensures
            r@ == self.scraper_strings(),
            views(r@) == self.scraper_ids(),
    {
        self.scrapers.as_slice()
    }
}

impl Default for PluginHost {
    fn default() -> (r: Self)
        ensures
            r.scraper_ids() == Seq::<Seq<char>>::empty(),
    {
        let r = PluginHost { scrapers: Vec::new() };
        assert(views(r.scrapers@) =~= Seq::<Seq<char>>::empty());
        r
    }
}

/// Failure reported by a scraper plugin.
#[derive(Debug, Clone, PartialEq, Eq)]
pub enum PluginError {
    /// The plugin could not refresh a game; the text says why.
    Failed(String),
}

/// A remote metadata source, implemented by plugins.
pub trait ScraperPlugin: Send + Sync {
    fn id(&self) -> &'static str;

    /// Refreshes the metadata of one game; by default there is nothing to do,
    /// and the default succeeds.
    fn refresh_game(&self, game: &GameEntry, config: &LauncherConfig) -> (r: Result<(), PluginError>)
        default_ensures
            r == Ok::<(), PluginError>(()),
    {
        Ok(())
    }
}

/// A theme delivered as a plugin.
pub trait ThemePlugin: Send + Sync {
    fn id(&self) -> &'static str;

    fn theme_id(&self) -> ThemeId;
}

} // verus!
