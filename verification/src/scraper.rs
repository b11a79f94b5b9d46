//! Metadata sources and the pipeline that lists them.
use vstd::prelude::*;

use crate::catalog::GameEntry;
use crate::config::LauncherConfig;
use crate::text::{append_chars, from_chars, join_with, to_chars};

verus! {

/// A pluggable source of game metadata.
pub trait MetadataSource: Send + Sync {
    fn id(&self) -> &'static str;

    /// A short description for the interface and logs.
    fn label(&self) -> &'static str;
}

/// The offline source: local covers and titles derived from file names.
pub struct OfflineLibrarySource;

impl MetadataSource for OfflineLibrarySource {
    fn id(&self) -> (r: &'static str)
        ensures
            r@ == "offline-library"@,
    {
        "offline-library"
    }

    fn label(&self) -> (r: &'static str)
        ensures
            r@ == "Metadados locais (cache offline)"@,
    {
        "Metadados locais (cache offline)"
    }
}

/// A registered source, by identifier and label.
pub struct SourceInfo {
    pub id: String,
    pub label: String,
}

/// The metadata sources, in order.
pub struct ScraperPipeline {
    pub sources: Vec<SourceInfo>,
}

/// Why a pipeline refresh failed.
#[derive(Debug, Clone, PartialEq, Eq)]
pub enum ScraperError {
    /// A source failed; the text says why.
    SourceFailed(String),
}

/// How one source is described: `label (id)`.
pub open spec fn source_line(s: SourceInfo) -> Seq<char> {
    s.label@ + " ("@ + s.id@ + ")"@
}

/// The description of a pipeline: its sources' lines joined by ` · `.
pub open spec fn pipeline_description(sources: Seq<SourceInfo>) -> Seq<char> {
    join_with(sources.map_values(|s: SourceInfo| source_line(s)), " · "@)
}

impl Default for ScraperPipeline {
    /// The pipeline with the offline source alone.
    fn default() -> (r: Self)
        ensures
            r.sources@.len() == 1,
            r.sources@[0].id@ == "offline-library"@,
            r.sources@[0].label@ == "Metadados locais (cache offline)"@,
    {
        let src = OfflineLibrarySource;
        let mut sources: Vec<SourceInfo> = Vec::new();
        sources.push(SourceInfo { id: src.id().to_owned(), label: src.label().to_owned() });
        ScraperPipeline { sources }
    }
}

impl ScraperPipeline {
    /// One line naming every source as `label (id)`, separated by ` · `.
    pub fn describe(&self) -> (r: String)
        ensures
            r@ == pipeline_description(self.sources@),
    {
        let ghost lines = self.sources@.map_values(|s: SourceInfo| source_line(s));
        let sep = to_chars(" · ");
        let open_paren = to_chars(" (");
        let close_paren = to_chars(")");
        let mut out: Vec<char> = Vec::new();
        for i in 0..self.sources.len()
            invariant
                lines == self.sources@.map_values(|s: SourceInfo| source_line(s)),
                sep@ == " · "@,
                open_paren@ == " ("@,
                close_paren@ == ")"@,
                out@ == join_with(lines.take(i as int), " · "@),
        {
            let s = &self.sources[i];
            let mut line = to_chars(s.label.as_str());
            append_chars(&mut line, open_paren.as_slice());
            let id = to_chars(s.id.as_str());
            append_chars(&mut line, id.as_slice());
            append_chars(&mut line, close_paren.as_slice());
            assert(line@ == source_line(self.sources@[i as int]));
            assert(lines.take(i + 1).drop_last() == lines.take(i as int));
            assert(lines.take(i + 1).last() == line@);
            if i > 0 {
                append_chars(&mut out, sep.as_slice());
            } else {
                assert(out@.len() == 0);
            }
            append_chars(&mut out, line.as_slice());
            assert(out@ =~= join_with(lines.take(i + 1), " · "@));
        }
        assert(lines.take(lines.len() as int) == lines);
        from_chars(out.as_slice())
    }

    /// Refreshes metadata from the remote sources; the offline source needs
    /// no refresh, so nothing is updated.
    pub fn refresh_all(&mut self, games: &[GameEntry], config: &LauncherConfig) -> (r: Result<usize, ScraperError>)
        ensures
            r == Ok::<usize, ScraperError>(0),
            final(self).sources == old(self).sources,
    {
        Ok(0)
    }
}

} // verus!
