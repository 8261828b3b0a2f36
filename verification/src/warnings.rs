//! Warnings gathered during a long operation, kept to a bounded list.
use crate::text::owned;
use vstd::prelude::*;

verus! {

/// The most warnings one operation reports one by one.
pub const MAX_WARNINGS: usize = 200;

/// Collects warnings: the first `MAX_WARNINGS` are kept, and the rest are
/// only counted as omitted.
#[derive(Debug, Clone, PartialEq, Eq)]
pub struct WarningCollector {
    pub warnings: Vec<String>,
    pub truncated: bool,
}

/// The note appended to a list of warnings that had to be cut short.
pub open spec fn spec_omitted_note() -> Seq<char> {
    "Additional warnings were omitted."@
}

/// The warnings kept after `pushed` were reported in turn to a collector
/// that held `kept`: each one is kept while fewer than `MAX_WARNINGS` are.
pub open spec fn spec_collect(kept: Seq<Seq<char>>, pushed: Seq<Seq<char>>) -> Seq<Seq<char>>
    decreases pushed.len(),
{
    if pushed.len() == 0 {
        kept
    } else {
        let before = spec_collect(kept, pushed.drop_last());
        if before.len() < MAX_WARNINGS {
            before.push(pushed.last())
        } else {
            before
        }
    }
}

/// What a collector holding `kept`, with `truncated` telling whether some
/// were omitted, holds after one more report.
pub open spec fn spec_push(kept: Seq<Seq<char>>, truncated: bool, warning: Seq<char>) -> (Seq<Seq<char>>, bool) {
    if kept.len() < MAX_WARNINGS {
        (kept.push(warning), truncated)
    } else {
        (kept, true)
    }
}

/// What a new collector holds after `pushed` were reported in turn.
pub open spec fn spec_push_all(pushed: Seq<Seq<char>>) -> (Seq<Seq<char>>, bool)
    decreases pushed.len(),
{
    if pushed.len() == 0 {
        (Seq::empty(), false)
    } else {
        let before = spec_push_all(pushed.drop_last());
        spec_push(before.0, before.1, pushed.last())
    }
}

/// The list a collector hands back: the kept warnings, then the note when
/// some were omitted.
pub open spec fn spec_finish(kept: Seq<Seq<char>>, truncated: bool) -> Seq<Seq<char>> {
    if truncated {
        kept.push(spec_omitted_note())
    } else {
        kept
    }
}

impl WarningCollector {
    pub open spec fn view_warnings(&self) -> Seq<Seq<char>> {
        crate::frontmatter::strings_view(self.warnings@)
    }

    /// A collector never holds more than `MAX_WARNINGS` warnings.
    pub open spec fn wf(&self) -> bool {
        self.warnings@.len() <= MAX_WARNINGS
    }

    /// An empty collector.
    pub fn new() -> (r: WarningCollector)
        ensures
            r.wf(),
            r.warnings@.len() == 0,
            !r.truncated,
    {
        WarningCollector { warnings: Vec::new(), truncated: false }
    }

    /// Records a warning: kept while fewer than `MAX_WARNINGS` are held,
    /// otherwise only noted as omitted.
    pub fn push(&mut self, warning: String)
        requires
            old(self).wf(),
        ensures
            final(self).wf(),
            old(self).warnings@.len() < MAX_WARNINGS ==> {
                &&& final(self).view_warnings() == old(self).view_warnings().push(warning@)
                &&& final(self).truncated == old(self).truncated
            },
            old(self).warnings@.len() >= MAX_WARNINGS ==> {
                &&& final(self).warnings@ == old(self).warnings@
                &&& final(self).truncated
            },
            (final(self).view_warnings(), final(self).truncated)
                == spec_push(old(self).view_warnings(), old(self).truncated, warning@),
    {
        if self.warnings.len() < MAX_WARNINGS {
            self.warnings.push(warning);
            assert(self.view_warnings() =~= old(self).view_warnings().push(warning@));
        } else {
            self.truncated = true;
        }
    }

    /// The kept warnings, followed by a note when some were omitted.
    pub fn finish(self) -> (r: Vec<String>)
        requires
            self.wf(),
        ensures
            self.truncated ==> crate::frontmatter::strings_view(r@) == self.view_warnings().push(
                spec_omitted_note(),
            ),
            !self.truncated ==> r@ == self.warnings@,
            r@.len() <= MAX_WARNINGS + 1,
            crate::frontmatter::strings_view(r@) == spec_finish(self.view_warnings(), self.truncated),
    {
        let mut warnings = self.warnings;
        if self.truncated {
            let ghost before = warnings@;
            warnings.push(owned("Additional warnings were omitted."));
            assert(crate::frontmatter::strings_view(warnings@) =~= crate::frontmatter::strings_view(
                before,
            ).push(spec_omitted_note()));
        }
        warnings
    }
}

/// Reporting warnings one at a time keeps exactly the first ones, up to the
/// bound: after any sequence of reports the collector holds `spec_collect`
/// of them, never more than `MAX_WARNINGS`, and a report past the bound
/// changes nothing that is kept.
pub proof fn lemma_collect_bounded(kept: Seq<Seq<char>>, pushed: Seq<Seq<char>>)
    requires
        kept.len() <= MAX_WARNINGS,
    ensures
        spec_collect(kept, pushed).len() <= MAX_WARNINGS,
        kept.len() + pushed.len() <= MAX_WARNINGS ==> spec_collect(kept, pushed) == kept + pushed,
        spec_collect(kept, pushed).len() >= kept.len(),
        spec_collect(kept, pushed).take(kept.len() as int) == kept,
    decreases pushed.len(),
{
    if pushed.len() > 0 {
        lemma_collect_bounded(kept, pushed.drop_last());
        let before = spec_collect(kept, pushed.drop_last());
        if kept.len() + pushed.len() <= MAX_WARNINGS {
            assert(kept + pushed == (kept + pushed.drop_last()).push(pushed.last()));
        }
        if before.len() < MAX_WARNINGS {
            assert(before.push(pushed.last()).take(kept.len() as int) == before.take(
                kept.len() as int,
            ));
        }
    } else {
        assert(kept + pushed == kept);
    }
}


/// Reporting `pushed` one by one to a new collector and finishing it gives
/// the first `MAX_WARNINGS` of them, in order, followed by the omitted-note
/// exactly when more than `MAX_WARNINGS` were reported.
pub proof fn lemma_finish_after_pushes(pushed: Seq<Seq<char>>)
    ensures
        spec_finish(spec_push_all(pushed).0, spec_push_all(pushed).1) == if pushed.len() > MAX_WARNINGS {
            pushed.take(MAX_WARNINGS as int).push(spec_omitted_note())
        } else {
            pushed
        },
{
    lemma_push_all(pushed);
    if pushed.len() <= MAX_WARNINGS {
        assert(pushed.take(pushed.len() as int) =~= pushed);
    }
}

/// After `pushed` were reported to a new collector it holds their first
/// `MAX_WARNINGS` and notes an omission exactly when there were more.
proof fn lemma_push_all(pushed: Seq<Seq<char>>)
    ensures
        spec_push_all(pushed).0 == pushed.take(if pushed.len() > MAX_WARNINGS { MAX_WARNINGS as int } else { pushed.len() as int }),
        spec_push_all(pushed).1 == (pushed.len() > MAX_WARNINGS),
    decreases pushed.len(),
{
    if pushed.len() == 0 {
        assert(pushed.take(0) =~= Seq::<Seq<char>>::empty());
    } else {
        let rest = pushed.drop_last();
        lemma_push_all(rest);
        if rest.len() < MAX_WARNINGS {
            assert(rest.take(rest.len() as int).push(pushed.last()) =~= pushed.take(pushed.len() as int));
        } else {
            assert(rest.take(MAX_WARNINGS as int) =~= pushed.take(MAX_WARNINGS as int));
        }
    }
}

} // verus!
