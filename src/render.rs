//! The three renders of a run (art, info, layout) and what each one sees.
//! The caller evaluates each template; the pipeline decides the order and
//! the namespace of each call, and measures what comes back.

use vstd::prelude::*;
use crate::dimensions::{get_dimensions, visual_dimensions};
use crate::errors::FreshfetchError;
use crate::namespace::{field, top, EntryView, Namespace, Root, Scalar, ScalarView};
use crate::snapshot::{info_entries, Info};

verus! {

/// Rendered text with its visual width and height.
#[derive(Debug, Clone, PartialEq, Eq)]
pub struct RenderedBlock {
    pub text: String,
    pub width: i32,
    pub height: i32,
}

impl RenderedBlock {
    /// Whether the dimensions are those of the text.
    pub open spec fn measured(&self) -> bool {
        self.width == visual_dimensions(self.text@).0 && self.height == visual_dimensions(
            self.text@,
        ).1
    }

    /// Measures `text`; fails only when it is too long for its dimensions to
    /// fit an `i32`.
    pub fn measure(text: String) -> (r: Result<RenderedBlock, FreshfetchError>)
        ensures
            text@.len() < i32::MAX ==> (r matches Ok(b) && b.text == text && b.measured()),
            text@.len() >= i32::MAX ==> r is Err,
    {
        let n = text.as_str().unicode_len();
        if n >= 2147483647 {
            return Err(FreshfetchError::General(String::from_str("rendered text is too long")));
        }
        let (width, height) = get_dimensions(text.as_str());
        Ok(RenderedBlock { text, width, height })
    }
}

/// The renders of a run, in order.
#[derive(Debug, Clone, Copy, PartialEq, Eq)]
pub enum Stage {
    Art,
    Info,
    Layout,
    Done,
}

/// Entries for a rendered block under three roots: its text, width, height.
pub open spec fn block_entries(b: RenderedBlock, text: Root, width: Root, height: Root) -> Seq<
    EntryView,
> {
    seq![
        top(text, ScalarView::Text(b.text@)),
        top(width, ScalarView::Int(b.width as int)),
        top(height, ScalarView::Int(b.height as int)),
    ]
}

pub open spec fn art_entries(b: RenderedBlock) -> Seq<EntryView> {
    block_entries(b, Root::Art, Root::ArtWidth, Root::ArtHeight)
}

pub open spec fn info_block_entries(b: RenderedBlock) -> Seq<EntryView> {
    block_entries(b, Root::Info, Root::InfoWidth, Root::InfoHeight)
}

pub open spec fn terminal_entries(width: i32, height: i32) -> Seq<EntryView> {
    seq![
        field(Root::Terminal, "width"@, ScalarView::Int(width as int)),
        field(Root::Terminal, "height"@, ScalarView::Int(height as int)),
    ]
}

/// Where the art block comes from.
#[derive(Debug, Clone, PartialEq, Eq)]
pub enum ArtSource {
    /// The built-in logo of the named distribution.
    Builtin(String),
    /// The user's art template.
    Template,
}

/// A logo asked for by name wins; else the user's art template, when there
/// is one; else the built-in logo of the running distribution.
pub fn art_source(ascii_distro: Option<String>, override_exists: bool, distro_short_name: &String) -> (r: ArtSource)
    ensures
        ascii_distro matches Some(a) ==> r == ArtSource::Builtin(a),
        ascii_distro is None && override_exists ==> r == ArtSource::Template,
        ascii_distro is None && !override_exists ==> (r matches ArtSource::Builtin(n) && n@ == distro_short_name@),
{
    match ascii_distro {
        Some(a) => ArtSource::Builtin(a),
        None => if override_exists {
            ArtSource::Template
        } else {
            ArtSource::Builtin(distro_short_name.clone())
        },
    }
}

/// Which template an evaluation runs.
#[derive(Debug, Clone, Copy, PartialEq, Eq)]
pub enum TemplateSource {
    /// The user's file at the fixed configuration path.
    Override,
    /// The template built into the program.
    Default,
}

/// The user's template when the file exists, else the built-in one.
pub fn template_source(override_exists: bool) -> (r: TemplateSource)
    ensures
        override_exists <==> r == TemplateSource::Override,
{
    if override_exists {
        TemplateSource::Override
    } else {
        TemplateSource::Default
    }
}

/// The state of the renders of one run.
#[derive(Debug, Clone, PartialEq, Eq)]
pub struct RenderPipeline {
    /// The records that every render sees.
    pub snapshot: Info,
    /// Whether the user asked for the logo alone.
    pub logo: bool,
    pub terminal_width: i32,
    pub terminal_height: i32,
    pub stage: Stage,
    pub art: Option<RenderedBlock>,
    pub info: Option<RenderedBlock>,
    pub layout: Option<String>,
}

impl RenderPipeline {
    /// The blocks present are exactly those of the stages already done.
    pub open spec fn wf(&self) -> bool {
        match self.stage {
            Stage::Art => self.art is None && self.info is None && self.layout is None,
            Stage::Info => self.art is Some && self.info is None && self.layout is None,
            Stage::Layout => self.art is Some && self.info is Some && self.layout is None,
            Stage::Done => self.art is Some && self.info is Some && self.layout is Some,
        }
    }

    /// What every render sees: the snapshot's namespace and the logo flag.
    pub open spec fn base(&self) -> Seq<EntryView> {
        info_entries(self.snapshot) + seq![top(Root::Logo, ScalarView::Flag(self.logo))]
    }

    /// The namespace that the current stage's render sees: the base, then
    /// each block already rendered, then (for the layout) the terminal size.
    pub open spec fn stage_namespace(&self) -> Seq<EntryView> {
        match self.stage {
            Stage::Art => self.base(),
            Stage::Info => self.base() + art_entries(self.art->0),
            _ => self.base() + art_entries(self.art->0) + info_block_entries(self.info->0)
                + terminal_entries(self.terminal_width, self.terminal_height),
        }
    }

    /// A pipeline at its first stage, whose renders see `info` and the logo
    /// flag.
    pub fn new(info: Info, logo: bool, terminal_width: i32, terminal_height: i32) -> (r: RenderPipeline)
        ensures
            r.wf(),
            r.stage == Stage::Art,
            r.snapshot == info,
            r.logo == logo,
            r.terminal_width == terminal_width,
            r.terminal_height == terminal_height,
    {
        RenderPipeline {
            snapshot: info,
            logo,
            terminal_width,
            terminal_height,
            stage: Stage::Art,
            art: None,
            info: None,
            layout: None,
        }
    }

    /// The namespace for the render of the current stage.
    pub fn namespace(&self) -> (r: Namespace)
        requires
            self.wf(),
        ensures
            r@ == self.stage_namespace(),
    {
        let mut ns = self.snapshot.project();
        ns.set_top(Root::Logo, Scalar::Flag(self.logo));
        match self.stage {
            Stage::Art => {},
            Stage::Info => {
                let art = self.art.as_ref().unwrap();
                push_block(&mut ns, art, Root::Art, Root::ArtWidth, Root::ArtHeight);
            },
            _ => {
                let art = self.art.as_ref().unwrap();
                let info = self.info.as_ref().unwrap();
                push_block(&mut ns, art, Root::Art, Root::ArtWidth, Root::ArtHeight);
                push_block(&mut ns, info, Root::Info, Root::InfoWidth, Root::InfoHeight);
                let ghost before = ns@;
                ns.set_field(Root::Terminal, "width", Scalar::Int(self.terminal_width as i128));
                ns.set_field(Root::Terminal, "height", Scalar::Int(self.terminal_height as i128));
                proof {
                    assert(ns@ =~= before + terminal_entries(self.terminal_width, self.terminal_height));
                }
            },
        }
        ns
    }

    /// Records the text that the current stage's render produced, measured,
    /// and moves to the next stage. The layout's text is the run's output.
    pub fn complete(&mut self, text: String) -> (r: Result<(), FreshfetchError>)
        requires
            old(self).wf(),
            old(self).stage != Stage::Done,
        ensures
            final(self).wf(),
            text@.len() < i32::MAX <==> r is Ok,
            r is Err ==> *final(self) == *old(self),
            r is Ok ==> final(self).snapshot == old(self).snapshot && final(self).logo == old(self).logo,
            r is Ok ==> final(self).terminal_width == old(self).terminal_width
                && final(self).terminal_height == old(self).terminal_height,
            r is Ok && old(self).stage == Stage::Art ==> final(self).stage == Stage::Info
                && final(self).art is Some && final(self).art->0.text == text
                && final(self).art->0.measured(),
            r is Ok && old(self).stage == Stage::Info ==> final(self).stage == Stage::Layout
                && final(self).art == old(self).art
                && final(self).info is Some && final(self).info->0.text == text
                && final(self).info->0.measured(),
            r is Ok && old(self).stage == Stage::Layout ==> final(self).stage == Stage::Done
                && final(self).art == old(self).art && final(self).info == old(self).info
                && final(self).layout == Some(text),
    {
        match self.stage {
            Stage::Art => {
                let b = RenderedBlock::measure(text)?;
                self.art = Some(b);
                self.stage = Stage::Info;
            },
            Stage::Info => {
                let b = RenderedBlock::measure(text)?;
                self.info = Some(b);
                self.stage = Stage::Layout;
            },
            _ => {
                let n = text.as_str().unicode_len();
                if n >= 2147483647 {
                    return Err(FreshfetchError::General(String::from_str("rendered text is too long")));
                }
                self.layout = Some(text);
                self.stage = Stage::Done;
            },
        }
        Ok(())
    }

    /// The run's output, once the layout has been rendered.
    pub fn output(&self) -> (r: Option<String>)
        ensures
            r == self.layout,
    {
        match &self.layout {
            Some(t) => Some(t.clone()),
            None => None,
        }
    }
}

fn push_block(ns: &mut Namespace, b: &RenderedBlock, text: Root, width: Root, height: Root)
    ensures
        final(ns)@ == old(ns)@ + block_entries(*b, text, width, height),
{
    ns.set_top(text, Scalar::Text(b.text.clone()));
    ns.set_top(width, Scalar::Int(b.width as i128));
    ns.set_top(height, Scalar::Int(b.height as i128));
    proof {
        assert(final(ns)@ =~= old(ns)@ + block_entries(*b, text, width, height));
    }
}

/// Each render sees every block rendered before it in the same run: the
/// info render sees the art block, the layout render both blocks and the
/// terminal size.
pub proof fn lemma_prior_blocks_visible(p: RenderPipeline)
    requires
        p.wf(),
    ensures
        p.stage != Stage::Art ==> forall|e: EntryView|
            art_entries(p.art->0).contains(e) ==> #[trigger] p.stage_namespace().contains(e),
        (p.stage == Stage::Layout || p.stage == Stage::Done) ==> forall|e: EntryView|
            info_block_entries(p.info->0).contains(e) ==> #[trigger] p.stage_namespace().contains(e),
        forall|e: EntryView| p.base().contains(e) ==> #[trigger] p.stage_namespace().contains(e),
{
    let ns = p.stage_namespace();
    let b = p.base();
    if p.stage == Stage::Info {
        let a = art_entries(p.art->0);
        assert forall|e: EntryView| a.contains(e) implies #[trigger] ns.contains(e) by {
            let i = choose|i: int| 0 <= i < a.len() && a[i] == e;
            assert(ns[b.len() + i] == e);
        }
        assert forall|e: EntryView| b.contains(e) implies #[trigger] ns.contains(e) by {
            let i = choose|i: int| 0 <= i < b.len() && b[i] == e;
            assert(ns[i] == e);
        }
    } else if p.stage != Stage::Art {
        let a = art_entries(p.art->0);
        let f = info_block_entries(p.info->0);
        let t = terminal_entries(p.terminal_width, p.terminal_height);
        assert(ns == b + a + f + t);
        assert forall|e: EntryView| a.contains(e) implies #[trigger] ns.contains(e) by {
            let i = choose|i: int| 0 <= i < a.len() && a[i] == e;
            assert(ns[b.len() + i] == e);
        }
        assert forall|e: EntryView| f.contains(e) implies #[trigger] ns.contains(e) by {
            let i = choose|i: int| 0 <= i < f.len() && f[i] == e;
            assert(ns[b.len() + a.len() + i] == e);
        }
        assert forall|e: EntryView| b.contains(e) implies #[trigger] ns.contains(e) by {
            let i = choose|i: int| 0 <= i < b.len() && b[i] == e;
            assert(ns[i] == e);
        }
    } else {
        assert forall|e: EntryView| b.contains(e) implies #[trigger] ns.contains(e) by {
            let i = choose|i: int| 0 <= i < b.len() && b[i] == e;
            assert(ns[i] == e);
        }
    }
}

} // verus!
