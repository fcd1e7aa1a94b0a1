//! Rendering laws: proofs of the guarantees the renderer gives across whole
//! sequences.

use crate::ansi::{reset_seq, spec_prefix, spec_suffix};
use crate::difference::StyleDelta;
use crate::display::{
    spec_body, spec_content_text, spec_decode, spec_delta_at, spec_fragment_inner,
    spec_fragment_render, spec_last_plain, spec_sequence_text, spec_updates, styles_of,
    AnsiGenericString, AnsiGenericStrings, StyleUpdate,
};
use crate::style::{Coloring, FormatFlags, Style};
use vstd::prelude::*;

verus! {

/// In a dense transition list (one update per position, at its own index)
/// the decoder yields exactly the update at the queried position.
pub proof fn lemma_decode_dense(ups: Seq<StyleUpdate>, j: int)
    requires
        forall|k: int| 0 <= k < ups.len() ==> (#[trigger] ups[k].begins_at) as int == k,
        0 <= j < ups.len(),
    ensures
        spec_decode(ups, j) == Some(ups[j]),
    decreases ups.len(),
{
    if j == ups.len() - 1 {
        assert(ups.last().begins_at <= j);
    } else {
        assert(ups.last().begins_at as int == ups.len() - 1);
        assert(spec_decode(ups, j) == spec_decode(ups.drop_last(), j));
        assert forall|k: int| 0 <= k < ups.drop_last().len() implies (
        #[trigger] ups.drop_last()[k].begins_at) as int == k by {
            assert(ups.drop_last()[k] == ups[k]);
        }
        lemma_decode_dense(ups.drop_last(), j);
        assert(ups.drop_last()[j] == ups[j]);
    }
}

/// Under a fresh transition list, "the last emitted style was plain" after
/// the first `i` fragments means exactly: nothing was rendered yet, or the
/// style of fragment `i - 1` looks plain.
pub proof fn lemma_last_plain_fresh(styles: Seq<Style>, i: int)
    requires
        styles.len() <= usize::MAX,
        0 <= i <= styles.len(),
    ensures
        spec_last_plain(spec_updates(styles), i) == (i == 0 || styles[i - 1].is_plain_look()),
    decreases i,
{
    let ups = spec_updates(styles);
    if i > 0 {
        lemma_last_plain_fresh(styles, i - 1);
        crate::display::lemma_spec_updates_cache_wf(styles);
        lemma_decode_dense(ups, i - 1);
        let prev = crate::display::prev_style(styles, i - 1);
        assert(ups[i - 1].style_delta == prev.spec_compute_delta(styles[i - 1]));
        match spec_delta_at(ups, i - 1) {
            StyleDelta::Empty => {
                assert(prev.same_look(styles[i - 1]));
                assert(prev.is_plain_look() == styles[i - 1].is_plain_look());
                if i == 1 {
                    assert(prev == Style::spec_plain());
                } else {
                    assert(prev == styles[i - 2]);
                }
            },
            StyleDelta::ExtraStyles(x) => {
                assert(x == styles[i - 1].spec_with_reset(!styles[i - 1].covers(prev)));
                assert(x.is_plain_look() == styles[i - 1].is_plain_look());
            },
        }
    }
}

/// Rendering a single plain-styled, unannotated fragment yields exactly its
/// content: no escape codes surround it, so stripping escape codes from the
/// output gives the content back unchanged.
pub proof fn lemma_render_single_plain(s: AnsiGenericStrings, f: AnsiGenericString)
    requires
        s.strings@ == seq![f],
        s.style_updates@ == spec_updates(styles_of(s.strings@)),
        f.oscontrol is None,
        f.style.is_plain_look(),
    ensures
        spec_sequence_text(s) == spec_content_text(f.content),
{
    let styles = styles_of(s.strings@);
    let ups = s.style_updates@;
    assert(styles.len() == 1);
    assert(styles[0] == f.style);
    crate::display::lemma_spec_updates_cache_wf(styles);
    lemma_decode_dense(ups, 0);
    assert(Style::spec_plain().same_look(f.style));
    assert(ups[0].style_delta == StyleDelta::Empty);
    assert(spec_delta_at(ups, 0) == StyleDelta::Empty);
    lemma_last_plain_fresh(styles, 1);
    assert(spec_last_plain(ups, 1));
    assert(spec_body(s.strings@, ups, 0) == Seq::<char>::empty());
    assert(spec_body(s.strings@, ups, 1) == Seq::<char>::empty() + Seq::<char>::empty()
        + spec_fragment_inner(f));
    assert(spec_fragment_inner(f) == spec_content_text(f.content));
    assert(spec_sequence_text(s) =~= spec_content_text(f.content));
}

/// The body of a sequence under an empty transition list is the bare
/// concatenation of the fragments' inner renderings: no delta contributes
/// any escape code.
pub proof fn lemma_body_of_empty_updates(fs: Seq<AnsiGenericString>, i: int)
    requires
        0 < i <= fs.len(),
    ensures
        spec_body(fs, Seq::<StyleUpdate>::empty(), i) == spec_body(
            fs,
            Seq::<StyleUpdate>::empty(),
            i - 1,
        ) + spec_fragment_inner(fs[i - 1]),
{
    let none = Seq::<StyleUpdate>::empty();
    assert(spec_decode(none, i - 1) is None);
    assert(spec_delta_at(none, i - 1) == StyleDelta::Empty);
    assert(spec_body(fs, none, i) =~= spec_body(fs, none, i - 1) + spec_fragment_inner(fs[i - 1]));
}

/// In a freshly walked sequence whose fragments all carry the same style
/// and no annotation, exactly one style prefix is emitted, at the first
/// fragment, and the only reset is the final one — absent entirely when
/// that style looks plain. The rendering is the style's prefix, then the
/// bare contents in order, then the reset if the style is not plain.
pub proof fn lemma_uniform_style_render(s: AnsiGenericStrings, st: Style)
    requires
        s.style_updates@ == spec_updates(styles_of(s.strings@)),
        s.strings@.len() > 0,
        s.strings@.len() <= usize::MAX,
        forall|i: int| 0 <= i < s.strings@.len() ==> (#[trigger] s.strings@[i]).style == st,
    ensures
        spec_sequence_text(s) == if st.is_plain_look() {
            spec_body(s.strings@, Seq::<StyleUpdate>::empty(), s.strings@.len() as int)
        } else {
            spec_prefix(st.spec_with_reset(false), false) + spec_body(
                s.strings@,
                Seq::<StyleUpdate>::empty(),
                s.strings@.len() as int,
            ) + reset_seq()
        },
{
    let fs = s.strings@;
    let styles = styles_of(fs);
    let ups = s.style_updates@;
    let n = fs.len() as int;
    crate::display::lemma_spec_updates_cache_wf(styles);
    assert(fs[0].style == st);
    lemma_last_plain_fresh(styles, n);
    assert(styles[n - 1] == fs[n - 1].style);
    assert(spec_last_plain(ups, n) == st.is_plain_look());
    lemma_uniform_body(s, st, n);
    if st.is_plain_look() {
        assert(spec_delta_at(ups, 0) == StyleDelta::Empty) by {
            lemma_decode_dense(ups, 0);
            assert(Style::spec_plain().same_look(st));
        }
        assert(spec_sequence_text(s) =~= spec_body(fs, Seq::<StyleUpdate>::empty(), n));
    } else {
        assert(spec_sequence_text(s) =~= spec_prefix(st.spec_with_reset(false), false)
            + spec_body(fs, Seq::<StyleUpdate>::empty(), n) + reset_seq());
    }
}

/// The body of a uniformly styled fresh sequence: the first fragment's
/// delta contributes the style's prefix (nothing when it looks plain), and
/// every later delta is empty.
proof fn lemma_uniform_body(s: AnsiGenericStrings, st: Style, i: int)
    requires
        s.style_updates@ == spec_updates(styles_of(s.strings@)),
        s.strings@.len() > 0,
        s.strings@.len() <= usize::MAX,
        forall|j: int| 0 <= j < s.strings@.len() ==> (#[trigger] s.strings@[j]).style == st,
        0 <= i <= s.strings@.len(),
    ensures
        spec_body(s.strings@, s.style_updates@, i) == if st.is_plain_look() || i == 0 {
            spec_body(s.strings@, Seq::<StyleUpdate>::empty(), i)
        } else {
            spec_prefix(st.spec_with_reset(false), false) + spec_body(
                s.strings@,
                Seq::<StyleUpdate>::empty(),
                i,
            )
        },
    decreases i,
{
    let fs = s.strings@;
    let styles = styles_of(fs);
    let ups = s.style_updates@;
    crate::display::lemma_spec_updates_cache_wf(styles);
    if i > 0 {
        lemma_uniform_body(s, st, i - 1);
        lemma_decode_dense(ups, i - 1);
        assert(styles[i - 1] == st);
        let prev = crate::display::prev_style(styles, i - 1);
        assert(ups[i - 1].style_delta == prev.spec_compute_delta(st));
        assert(spec_decode(Seq::<StyleUpdate>::empty(), i - 1) is None);
        assert(spec_delta_at(Seq::<StyleUpdate>::empty(), i - 1) == StyleDelta::Empty);
        if i == 1 {
            assert(prev == Style::spec_plain());
            if st.is_plain_look() {
                assert(prev.same_look(st));
                assert(ups[0].style_delta == StyleDelta::Empty);
            } else {
                assert(!prev.same_look(st));
                assert(st.covers(prev));
                assert(ups[0].style_delta == StyleDelta::ExtraStyles(st.spec_with_reset(false)));
                assert(spec_body(fs, ups, 0) == Seq::<char>::empty());
            }
        } else {
            assert(prev == styles[i - 2]);
            assert(prev == st);
            assert(prev.same_look(st));
            assert(ups[i - 1].style_delta == StyleDelta::Empty);
        }
        if !(st.is_plain_look() || i == 0) {
            assert(spec_body(fs, ups, i) =~= spec_prefix(st.spec_with_reset(false), false)
                + spec_body(fs, Seq::<StyleUpdate>::empty(), i));
        } else {
            assert(spec_body(fs, ups, i) =~= spec_body(fs, Seq::<StyleUpdate>::empty(), i));
        }
    }
}

/// A freshly walked sequence that ends in a plain-styled fragment emits no
/// trailing reset, whatever styles came before: its rendering is the bare
/// body with nothing appended.
pub proof fn lemma_no_reset_after_plain_tail(s: AnsiGenericStrings)
    requires
        s.style_updates@ == spec_updates(styles_of(s.strings@)),
        s.strings@.len() > 0,
        s.strings@.len() <= usize::MAX,
        s.strings@.last().style.is_plain_look(),
    ensures
        spec_sequence_text(s) == spec_body(
            s.strings@,
            s.style_updates@,
            s.strings@.len() as int,
        ),
{
    let styles = styles_of(s.strings@);
    let n = s.strings@.len() as int;
    lemma_last_plain_fresh(styles, n);
    assert(styles[n - 1] == s.strings@.last().style);
    assert(spec_last_plain(s.style_updates@, n));
    assert(spec_sequence_text(s) =~= spec_body(s.strings@, s.style_updates@, n));
}

/// A fragment annotated with a link renders in this exact order: the
/// style's SGR prefix, the hyperlink opener carrying the url, the content,
/// the hyperlink closer, and the style's SGR suffix. No SGR codes stand
/// between the opener and the closer beyond what the content itself holds.
pub proof fn lemma_link_render_order(f: AnsiGenericString, url: crate::display::Content)
    requires
        f.oscontrol == Some(crate::display::OSControl::Link { url }),
    ensures
        spec_fragment_render(f) == spec_prefix(f.style, false) + "\x1B]8;;"@
            + spec_content_text(url) + "\x1B\\"@ + spec_content_text(f.content)
            + "\x1B]8;;\x1B\\"@ + spec_suffix(f.style),
{
    assert(spec_fragment_render(f) =~= spec_prefix(f.style, false) + "\x1B]8;;"@
        + spec_content_text(url) + "\x1B\\"@ + spec_content_text(f.content) + "\x1B]8;;\x1B\\"@
        + spec_suffix(f.style));
}

/// Rebasing a child style onto an ambient parent OR-merges the attribute
/// sets and lets each color channel fall through to the parent exactly when
/// the child left it unset; the child's reset marker is kept.
pub proof fn lemma_rebase_inherits(child: Style, parent: Style)
    ensures
        child.spec_rebase_on(parent).formats == child.formats.union(parent.formats),
        child.spec_rebase_on(parent).coloring.fg == (if child.coloring.fg is Some {
            child.coloring.fg
        } else {
            parent.coloring.fg
        }),
        child.spec_rebase_on(parent).coloring.bg == (if child.coloring.bg is Some {
            child.coloring.bg
        } else {
            parent.coloring.bg
        }),
        child.spec_rebase_on(parent).reset_prefix == child.reset_prefix,
{
}

/// The concrete shape of nested inheritance: a child that sets only `bold`,
/// rebased onto a parent with `italic` and a foreground color, carries
/// bold, italic, and the parent's foreground.
pub proof fn lemma_rebase_bold_onto_italic_fg(child: Style, parent: Style, fg: crate::style::Color)
    requires
        child.formats == (FormatFlags { bold: true, ..FormatFlags::spec_empty() }),
        child.coloring == Coloring::spec_none(),
        parent.formats == (FormatFlags { italic: true, ..FormatFlags::spec_empty() }),
        parent.coloring == (Coloring { fg: Some(fg), bg: None }),
    ensures
        child.spec_rebase_on(parent).formats == (FormatFlags {
            bold: true,
            italic: true,
            ..FormatFlags::spec_empty()
        }),
        child.spec_rebase_on(parent).coloring == (Coloring { fg: Some(fg), bg: None }),
{
}

} // verus!
