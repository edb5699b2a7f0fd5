//! The library's general guarantees, stated and proved as theorems
//! over the specifications that the public contracts use.

use vstd::prelude::*;

verus! {

use crate::markdown::{markdown_events, TokenV};
use crate::renderer::{
    complete_frame, finalize, first_missing, initial_renderer, key_index, resolve_cites,
    sort_by_id, spec_render, BibMode, FrameKindV, FrameV, MachineV, RendererV, RenderErrorV,
};
use vstd::utf8::decode_utf8;

/// Rendering is deterministic: two sessions over the same document
/// bytes, with the same answers from the file system, produce
/// byte-identical output and end in the same state.
pub proof fn lemma_render_deterministic(
    c1: Seq<u8>,
    c2: Seq<u8>,
    ex1: Seq<bool>,
    ex2: Seq<bool>,
)
    requires
        c1 == c2,
        ex1 == ex2,
    ensures
        spec_render(initial_renderer(), markdown_events(decode_utf8(c1)), ex1) == spec_render(
            initial_renderer(),
            markdown_events(decode_utf8(c2)),
            ex2,
        ),
{
}

proof fn lemma_first_missing_none(refs: Seq<Seq<char>>, bib: Seq<(usize, Seq<char>)>, k: int)
    requires
        0 <= k,
        first_missing(refs, bib, k) is None,
    ensures
        k >= refs.len() || refs.len() <= bib.len(),
        forall|i: int| #![trigger bib[i]] k <= i < refs.len() ==> bib[i].0 == i + 1,
    decreases refs.len() - k,
{
    if k < refs.len() {
        assert(k < bib.len() && bib[k].0 == k + 1) by {
            reveal_with_fuel(first_missing, 2);
            if !(k < bib.len() && bib[k].0 == k + 1) {
                assert(first_missing(refs, bib, k) == Some(k));
            }
        }
        assert(first_missing(refs, bib, k + 1) is None) by {
            reveal_with_fuel(first_missing, 2);
        }
        lemma_first_missing_none(refs, bib, k + 1);
    }
}

/// The citation and bibliography tables form a strict bijection
/// whenever a document with a bibliography renders successfully: the
/// sorted bibliography holds exactly one entry per cited key, and the
/// entry at position `i` carries exactly the number `i + 1`.
pub proof fn lemma_bibliography_bijection(m: MachineV)
    requires
        m.mode is Done,
        finalize(m) is Ok,
    ensures
        m.ren.references.len() == sort_by_id(m.bib).len(),
        forall|i: int|
            #![trigger sort_by_id(m.bib)[i]]
            0 <= i < m.ren.references.len() ==> sort_by_id(m.bib)[i].0 == i + 1,
{
    assert(first_missing(m.ren.references, sort_by_id(m.bib), 0) is None);
    lemma_first_missing_none(m.ren.references, sort_by_id(m.bib), 0);
    assert(!(sort_by_id(m.bib).len() > m.ren.references.len()));
}

/// A document that cited keys but reached its end without a
/// bibliography fails, naming the first cited key.
pub proof fn lemma_unresolved_citation_fails(m: MachineV)
    requires
        m.mode is Inactive,
        m.ren.references.len() > 0,
    ensures
        finalize(m) == Err::<(RendererV, Seq<char>), RenderErrorV>(
            RenderErrorV::MissingEntry(m.ren.references[0]),
        ),
{
}

/// A bibliography with a surplus entry fails, naming the key whose
/// number the surplus entry repeats.
pub proof fn lemma_surplus_entry_fails(m: MachineV)
    requires
        m.mode is Done,
        first_missing(m.ren.references, sort_by_id(m.bib), 0) is None,
        sort_by_id(m.bib).len() > m.ren.references.len(),
        1 <= sort_by_id(m.bib)[m.ren.references.len() as int].0 <= m.ren.references.len(),
    ensures
        finalize(m) == Err::<(RendererV, Seq<char>), RenderErrorV>(
            RenderErrorV::DuplicateEntry(
                m.ren.references[sort_by_id(m.bib)[m.ren.references.len() as int].0 - 1],
            ),
        ),
{
}

/// Removing the entry of a cited key makes the render fail naming
/// that key: whenever the check finds the first mismatch at position
/// `i`, the error names the key cited `i + 1`-th.
pub proof fn lemma_missing_entry_fails(m: MachineV, i: int)
    requires
        m.mode is Done,
        first_missing(m.ren.references, sort_by_id(m.bib), 0) == Some(i),
    ensures
        0 <= i < m.ren.references.len(),
        finalize(m) == Err::<(RendererV, Seq<char>), RenderErrorV>(
            RenderErrorV::MissingEntry(m.ren.references[i]),
        ),
{
    lemma_first_missing_bounds(m.ren.references, sort_by_id(m.bib), 0);
}

proof fn lemma_first_missing_bounds(
    refs: Seq<Seq<char>>,
    bib: Seq<(usize, Seq<char>)>,
    k: int,
)
    requires
        0 <= k,
        first_missing(refs, bib, k) matches Some(i),
    ensures
        ({
            let i = first_missing(refs, bib, k).unwrap();
            k <= i < refs.len()
        }),
    decreases refs.len() - k,
{
    if k < refs.len() && k < bib.len() && bib[k].0 == k + 1 {
        lemma_first_missing_bounds(refs, bib, k + 1);
    }
}

/// Table numbers are sequential: completing a table element renders
/// it with the session's current number and moves the counter up by
/// exactly one, so consecutive tables carry consecutive numbers
/// starting at one.
pub proof fn lemma_table_numbering(m: MachineV, f: FrameV)
    requires
        f.kind is Table,
    ensures
        complete_frame(m, f).ren.table_cursor == m.ren.table_cursor + 1,
        complete_frame(m, f) == ({
            let m2 = crate::renderer::emit(
                m,
                crate::templates::table_markup(m.ren.table_cursor, f.buf, m.ren.description),
            );
            MachineV {
                ren: RendererV {
                    table_cursor: m2.ren.table_cursor + 1,
                    description: Seq::empty(),
                    ..m2.ren
                },
                ..m2
            }
        }),
{
}

/// Figure numbers are sequential in the same way.
pub proof fn lemma_figure_numbering(m: MachineV, f: FrameV)
    requires
        f.kind is Image,
    ensures
        complete_frame(m, f).ren.figure_cursor == m.ren.figure_cursor + 1,
{
}

proof fn lemma_key_index_bounds(xs: Seq<Seq<char>>, x: Seq<char>)
    ensures
        0 <= key_index(xs, x) <= xs.len(),
    decreases xs.len(),
{
    if xs.len() > 0 && xs[0] != x {
        lemma_key_index_bounds(xs.drop_first(), x);
    }
}

/// Citation numbers are sequential and stable: resolving citation
/// tokens never renumbers known keys (the table only grows at the
/// end), and every emitted number lies between one and the size of
/// the grown table, a key cited for the first time receiving the next
/// free number.
pub proof fn lemma_citation_numbering(refs: Seq<Seq<char>>, toks: Seq<Seq<char>>)
    requires
        refs.len() + toks.len() <= usize::MAX,
    ensures
        resolve_cites(refs, toks).1.len() >= refs.len(),
        resolve_cites(refs, toks).1.subrange(0, refs.len() as int) == refs,
        forall|i: int|
            0 <= i < resolve_cites(refs, toks).0.len() ==> 1 <= #[trigger] resolve_cites(
                refs,
                toks,
            ).0[i] <= resolve_cites(refs, toks).1.len(),
    decreases toks.len(),
{
    if toks.len() == 0 {
        assert(resolve_cites(refs, toks).1.subrange(0, refs.len() as int) =~= refs);
    } else {
        let t = toks[0];
        lemma_key_index_bounds(refs, t);
        let i = key_index(refs, t);
        let refs2 = if i < refs.len() {
            refs
        } else {
            refs.push(t)
        };
        assert(refs2.len() + toks.drop_first().len() <= usize::MAX);
        lemma_citation_numbering(refs2, toks.drop_first());
        let r = resolve_cites(refs2, toks.drop_first());
        assert(refs2.subrange(0, refs.len() as int) =~= refs);
        assert(r.1.subrange(0, refs.len() as int) =~= refs) by {
            assert(r.1.subrange(0, refs2.len() as int) == refs2);
            assert(forall|j: int|
                0 <= j < refs.len() ==> r.1.subrange(0, refs2.len() as int)[j] == #[trigger] r.1.subrange(
                    0,
                    refs.len() as int,
                )[j]);
        }
        assert(1 <= i + 1 <= refs2.len());
        assert(refs2.len() <= r.1.len());
        let whole = resolve_cites(refs, toks);
        assert(whole.0 == seq![(i + 1) as usize] + r.0 && whole.1 == r.1) by {
            reveal_with_fuel(resolve_cites, 2);
        }
        assert forall|j: int| 0 <= j < whole.0.len() implies 1 <= #[trigger] whole.0[j]
            <= whole.1.len() by {
            if j == 0 {
                assert(0 <= i + 1 <= usize::MAX);
                assert(whole.0[0] == (i + 1) as usize);
                assert(whole.0[0] == i + 1);
            } else {
                assert(whole.0[j] == r.0[j - 1]);
                assert(1 <= r.0[j - 1] <= r.1.len());
            }
        }
    }
}

/// A link whose target does not exist on disk renders with its URL
/// unchanged and leaves the file-mention set unchanged.
pub proof fn lemma_missing_link_target_unchanged(m: MachineV, f: FrameV)
    requires
        f.kind matches FrameKindV::Link { url, on_disk } && !on_disk,
    ensures
        complete_frame(m, f) == crate::renderer::emit(
            m,
            crate::templates::link_markup(f.kind->Link_url, f.buf),
        ),
        complete_frame(m, f).ren.file_mentions == m.ren.file_mentions,
{
}

/// An image whose target does not exist on disk renders with its URL
/// unchanged, without the optimized-format rewrite, and leaves the
/// file-mention set unchanged.
pub proof fn lemma_missing_image_target_unchanged(m: MachineV, f: FrameV)
    requires
        f.kind matches FrameKindV::Image { url, on_disk } && !on_disk,
    ensures
        complete_frame(m, f) == ({
            let m2 = crate::renderer::emit(
                m,
                crate::templates::figure_markup(
                    m.ren.figure_cursor,
                    f.kind->Image_url,
                    m.ren.description,
                    m.ren.p_level > 0,
                ),
            );
            MachineV {
                ren: RendererV {
                    figure_cursor: m2.ren.figure_cursor + 1,
                    description: Seq::empty(),
                    ..m2.ren
                },
                ..m2
            }
        }),
        complete_frame(m, f).ren.file_mentions == m.ren.file_mentions,
{
}

/// Re-citing an already known key yields its original number and
/// leaves the key table unchanged.
pub proof fn lemma_recite_is_stable(refs: Seq<Seq<char>>, t: Seq<char>)
    requires
        0 <= key_index(refs, t) < refs.len(),
    ensures
        resolve_cites(refs, seq![t]) == ((seq![(key_index(refs, t) + 1) as usize], refs)),
{
    reveal_with_fuel(resolve_cites, 2);
    assert(seq![t].drop_first() =~= Seq::<Seq<char>>::empty());
    assert(resolve_cites(refs, seq![t].drop_first()).0 =~= Seq::<usize>::empty());
    assert(seq![(key_index(refs, t) + 1) as usize] + Seq::<usize>::empty() =~= seq![(key_index(
        refs,
        t,
    ) + 1) as usize]);
}

/// Resolving citation tokens never renumbers known keys: the key
/// table only grows at the end, whatever the tokens are.
pub proof fn lemma_resolve_prefix(refs: Seq<Seq<char>>, toks: Seq<Seq<char>>)
    ensures
        resolve_cites(refs, toks).1.len() >= refs.len(),
        resolve_cites(refs, toks).1.subrange(0, refs.len() as int) == refs,
    decreases toks.len(),
{
    if toks.len() == 0 {
        assert(resolve_cites(refs, toks).1.subrange(0, refs.len() as int) =~= refs);
    } else {
        let t = toks[0];
        let i = key_index(refs, t);
        let refs2 = if i < refs.len() {
            refs
        } else {
            refs.push(t)
        };
        lemma_resolve_prefix(refs2, toks.drop_first());
        let r = resolve_cites(refs2, toks.drop_first());
        assert(refs2.subrange(0, refs.len() as int) =~= refs);
        assert(r.1.subrange(0, refs.len() as int) =~= refs) by {
            assert(r.1.subrange(0, refs2.len() as int) == refs2);
            assert(forall|j: int|
                0 <= j < refs.len() ==> r.1.subrange(0, refs2.len() as int)[j]
                    == #[trigger] r.1.subrange(0, refs.len() as int)[j]);
        }
    }
}

/// Completing one element moves each of the table and figure counters
/// up by at most one and never down, and never renumbers known
/// citation keys.
pub proof fn lemma_complete_monotonic(m: MachineV, f: FrameV)
    ensures
        m.ren.table_cursor <= complete_frame(m, f).ren.table_cursor <= m.ren.table_cursor + 1,
        m.ren.figure_cursor <= complete_frame(m, f).ren.figure_cursor <= m.ren.figure_cursor
            + 1,
        complete_frame(m, f).ren.references.len() >= m.ren.references.len(),
        complete_frame(m, f).ren.references.subrange(0, m.ren.references.len() as int)
            == m.ren.references,
{
    match f.kind {
        FrameKindV::Cite => {
            lemma_resolve_prefix(m.ren.references, crate::renderer::cite_tokens(f.buf));
        },
        _ => {
            assert(complete_frame(m, f).ren.references.subrange(
                0,
                m.ren.references.len() as int,
            ) =~= m.ren.references);
        },
    }
}

/// Table, figure and citation numbering never resets mid-document:
/// whatever token the machine consumes, each counter moves up by at
/// most one and never down, and keys already in the citation table
/// keep their numbers.
pub proof fn lemma_step_counters_monotonic(m: MachineV, e: TokenV, ex: bool)
    requires
        crate::renderer::spec_step(m, e, ex) matches Ok(m2),
    ensures
        ({
            let m2 = crate::renderer::spec_step(m, e, ex)->Ok_0;
            &&& m.ren.table_cursor <= m2.ren.table_cursor <= m.ren.table_cursor + 1
            &&& m.ren.figure_cursor <= m2.ren.figure_cursor <= m.ren.figure_cursor + 1
            &&& m2.ren.references.len() >= m.ren.references.len()
            &&& m2.ren.references.subrange(0, m.ren.references.len() as int)
                == m.ren.references
        }),
{
    let m2 = crate::renderer::spec_step(m, e, ex)->Ok_0;
    let popped = MachineV { stack: m.stack.drop_last(), ..m };
    if m.mode is Inactive || m.mode is Collecting {
        match e {
            TokenV::End { paragraph } => {
                lemma_complete_monotonic(popped, m.stack.last());
            },
            TokenV::Html(t) => {
                if m.stack.len() > 0 && crate::renderer::directive_end_matches(
                    m.stack.last().kind,
                    t,
                ) {
                    lemma_complete_monotonic(popped, m.stack.last());
                } else {
                    assert(m2.ren.references.subrange(0, m.ren.references.len() as int)
                        =~= m.ren.references);
                }
            },
            TokenV::InlineHtml(t) => {
                if m.stack.len() > 0 && crate::renderer::directive_end_matches(
                    m.stack.last().kind,
                    t,
                ) {
                    lemma_complete_monotonic(popped, m.stack.last());
                } else {
                    assert(m2.ren.references.subrange(0, m.ren.references.len() as int)
                        =~= m.ren.references);
                }
            },
            _ => {
                assert(m2.ren.references.subrange(0, m.ren.references.len() as int)
                    =~= m.ren.references);
            },
        }
    } else {
        assert(m2.ren.references.subrange(0, m.ren.references.len() as int)
            =~= m.ren.references);
    }
}

/// A paragraph start raises the nesting depth by one, and completing
/// the paragraph restores it.
pub proof fn lemma_paragraph_depth(m: MachineV, f: FrameV)
    requires
        f.kind is Paragraph,
        m.ren.p_level >= 1,
    ensures
        crate::renderer::step_start(m, crate::markdown::ElementTagV::Paragraph, false) matches Ok(
            m2,
        ) && m2.ren.p_level == m.ren.p_level + 1,
        complete_frame(m, f).ren.p_level == m.ren.p_level - 1,
{
}

/// A paragraph whose collected content is empty produces no wrapper
/// markup: completing it changes nothing but the nesting depth.
pub proof fn lemma_empty_paragraph_elided(m: MachineV, f: FrameV)
    requires
        f.kind is Paragraph,
        f.buf.len() == 0,
    ensures
        complete_frame(m, f) == (MachineV {
            ren: RendererV { p_level: (m.ren.p_level - 1) as nat, ..m.ren },
            ..m
        }),
{
}

} // verus!
