//! The render context and the per-page output target.  For each
//! publishable page the shell hydrates the full document, builds this
//! context around it — the page, the whole summary list, the
//! configuration and the develop-mode stub — hands it to the template
//! engine, and writes the result where `staging_relative` points,
//! inside the staging tree of the publish protocol.

use vstd::prelude::*;

use crate::config::Config;
use crate::develop::DevelopData;
use crate::document::{DataFile, PageInfo};
use crate::paths::{output_file_name_of, output_file_name_spec};

verus! {

/// Everything one template expansion sees.
#[derive(Debug)]
pub struct RenderData<'a> {
    pub page: DataFile,
    pub pages: &'a Vec<PageInfo>,
    pub config: &'a Config,
    pub develop: &'a DevelopData,
}

impl<'a> RenderData<'a> {
    /// Gathers the context for one page.
    pub fn new(
        page: DataFile,
        pages: &'a Vec<PageInfo>,
        config: &'a Config,
        develop: &'a DevelopData,
    ) -> (r: Self)
        ensures
            r.page == page,
            r.pages == pages,
            r.config == config,
            r.develop == develop,
    {
        RenderData { page, pages, config, develop }
    }
}

/// The output path always opens with a slash.
pub proof fn lemma_output_starts_with_slash(url: Seq<char>)
    ensures
        output_file_name_spec(url).len() > 0,
        output_file_name_spec(url)[0] == '/',
{
}

/// A page's output path relative to the staging tree: its output file
/// name without the leading slash.
pub fn staging_relative(url: &str) -> (r: String)
    ensures
        r@ == output_file_name_spec(url@).drop_first(),
{
    let full = output_file_name_of(url);
    let v = crate::text::to_chars(full.as_str());
    proof {
        lemma_output_starts_with_slash(url@);
        assert(v@.subrange(1, v@.len() as int) =~= output_file_name_spec(url@).drop_first());
    }
    crate::text::chars_to_string(&v, 1, v.len())
}

} // verus!
