//! Styled fragments, sequences with their cached style transitions, the run
//! decoder, and the renderer.

use crate::ansi::{reset_seq, spec_prefix, spec_suffix, RESET};
use crate::difference::StyleDelta;
use crate::style::{Color, Coloring, Style};
use vstd::prelude::*;

verus! {

/// The content of a fragment: owned text, or a nested sequence of fragments
/// that renders with its own transitions.
pub enum Content {
    /// Owned text.
    Text(String),
    /// A nested sequence of fragments.
    Strings(Box<AnsiGenericStrings>),
}

/// An out-of-band terminal directive wrapping a fragment's content.
pub enum OSControl {
    /// Set the title of the terminal window.
    Title,
    /// Make the content a clickable link.
    Link {
        /// The url underlying the clickable link.
        url: Content,
    },
}

/// One styled unit: a [`Style`], the [`Content`] it paints, and an optional
/// [`OSControl`] annotation.
pub struct AnsiGenericString {
    /// The style the content is painted with.
    pub style: Style,
    /// The painted content.
    pub content: Content,
    /// The optional out-of-band annotation.
    pub oscontrol: Option<OSControl>,
}

/// The [`StyleDelta`] that becomes active at fragment index `begins_at` and
/// holds until the next update: one sparse run-length event of a sequence's
/// cached transition list.
#[derive(Clone, Copy, PartialEq, Eq, Structural, Debug)]
pub struct StyleUpdate {
    /// The transition to emit before the fragment at `begins_at`.
    pub style_delta: StyleDelta,
    /// The fragment index at which this transition becomes active.
    pub begins_at: usize,
}

/// An ordered list of fragments together with the cached list of style
/// transitions between them.
///
/// The cache is conservative: it is considered fresh exactly when it holds
/// one update per fragment, and operations that read it recompute it first
/// when that cheap check fails.
pub struct AnsiGenericStrings {
    /// The ordered fragments.
    pub strings: Vec<AnsiGenericString>,
    /// The cached transition list; read through [`AnsiGenericStrings::style_updates`],
    /// which recomputes it when it is stale.
    pub style_updates: Vec<StyleUpdate>,
}

/// A string of styled text fragments.
pub type AnsiString = AnsiGenericString;

/// A styled fragment whose rendering is meant for a byte sink.
pub type AnsiByteString = AnsiGenericString;

/// A sequence of styled text fragments.
pub type AnsiStrings = AnsiGenericStrings;

/// A sequence of styled fragments whose rendering is meant for a byte sink.
pub type AnsiByteStrings = AnsiGenericStrings;

/// The larger of two naturals.
pub open spec fn nat_max(a: nat, b: nat) -> nat {
    if a >= b {
        a
    } else {
        b
    }
}

/// Structural nesting depth of a content value.
pub open spec fn content_height(c: Content) -> nat
    decreases c, 0int, 0int,
{
    match c {
        Content::Text(_) => 0,
        Content::Strings(b) => 1 + sequence_height(*b),
    }
}

/// Structural nesting depth of a sequence.
pub open spec fn sequence_height(s: AnsiGenericStrings) -> nat
    decreases s, 3int, 0int,
{
    1 + vec_height(s.strings)
}

/// Structural nesting depth of a fragment vector.
pub open spec fn vec_height(v: Vec<AnsiGenericString>) -> nat
    decreases v, 2int, 0int,
{
    frags_height(v@)
}

/// Structural nesting depth of a fragment list: the largest depth among its
/// fragments.
pub open spec fn frags_height(fs: Seq<AnsiGenericString>) -> nat
    decreases fs, 1int, 0int,
{
    if fs.len() == 0 {
        0
    } else {
        nat_max(fragment_height(fs[0]), frags_height(fs.drop_first()))
    }
}

/// Structural nesting depth of a fragment.
pub open spec fn fragment_height(f: AnsiGenericString) -> nat
    decreases f, 9int, 0int,
{
    1 + nat_max(content_height(f.content), osc_opt_height(f.oscontrol))
}

/// Structural nesting depth of an optional annotation.
pub open spec fn osc_opt_height(o: Option<OSControl>) -> nat
    decreases o, 8int, 0int,
{
    match o {
        Option::None => 0,
        Option::Some(x) => osc_height(x),
    }
}

/// Structural nesting depth of an annotation.
pub open spec fn osc_height(x: OSControl) -> nat
    decreases x, 7int, 0int,
{
    match x {
        OSControl::Title => 0,
        OSControl::Link { url } => 1 + content_height(url),
    }
}

/// Each fragment of a well-formed list is well formed.
pub proof fn lemma_frags_wf_index(fs: Seq<AnsiGenericString>, i: int)
    requires
        frags_wf(fs),
        0 <= i < fs.len(),
    ensures
        fragment_wf(fs[i]),
    decreases fs.len(),
{
    if i > 0 {
        lemma_frags_wf_index(fs.drop_first(), i - 1);
        assert(fs.drop_first()[i - 1] == fs[i]);
    }
}

/// A list of well-formed fragments extended by a well-formed fragment stays
/// well formed.
pub proof fn lemma_frags_wf_push(fs: Seq<AnsiGenericString>, f: AnsiGenericString)
    requires
        frags_wf(fs),
        fragment_wf(f),
    ensures
        frags_wf(fs.push(f)),
    decreases fs.len(),
{
    if fs.len() == 0 {
        assert(fs.push(f)[0] == f);
        assert(fragment_wf(fs.push(f)[0]));
        assert(fs.push(f).drop_first() =~= Seq::<AnsiGenericString>::empty());
        assert(frags_wf(fs.push(f).drop_first()));
    } else {
        lemma_frags_wf_push(fs.drop_first(), f);
        assert(fs.push(f).drop_first() =~= fs.drop_first().push(f));
        assert(frags_wf(fs.push(f).drop_first()));
        assert(fs.push(f)[0] == fs[0]);
        assert(fragment_wf(fs.push(f)[0]));
    }
}

/// A list in which every fragment is well formed is well formed.
pub proof fn lemma_frags_wf_from_all(fs: Seq<AnsiGenericString>)
    requires
        forall|i: int| 0 <= i < fs.len() ==> #[trigger] fragment_wf(fs[i]),
    ensures
        frags_wf(fs),
    decreases fs.len(),
{
    if fs.len() > 0 {
        assert forall|i: int| 0 <= i < fs.drop_first().len() implies #[trigger] fragment_wf(
            fs.drop_first()[i],
        ) by {
            assert(fs.drop_first()[i] == fs[i + 1]);
            assert(fragment_wf(fs[i + 1]));
        }
        lemma_frags_wf_from_all(fs.drop_first());
        assert(fragment_wf(fs[0]));
        assert(frags_wf(fs.drop_first()));
    }
}

/// Every fragment of a list is at most as deep as the list.
pub proof fn lemma_frags_height_bound(fs: Seq<AnsiGenericString>, i: int)
    requires
        0 <= i < fs.len(),
    ensures
        fragment_height(fs[i]) <= frags_height(fs),
    decreases fs.len(),
{
    if i == 0 {
    } else {
        lemma_frags_height_bound(fs.drop_first(), i - 1);
        assert(fs.drop_first()[i - 1] == fs[i]);
    }
}

/// The `begins_at` indices are strictly increasing, all lie below `n`, and
/// the list is dense (one update per fragment, at its own index) whenever it
/// has exactly `n` entries.
pub open spec fn cache_wf(ups: Seq<StyleUpdate>, n: int) -> bool {
    &&& forall|i: int, j: int|
        0 <= i < j < ups.len() ==> #[trigger] ups[i].begins_at < #[trigger] ups[j].begins_at
    &&& forall|i: int| 0 <= i < ups.len() ==> (#[trigger] ups[i].begins_at) < n
    &&& ups.len() == n ==> forall|i: int|
        0 <= i < ups.len() ==> (#[trigger] ups[i].begins_at) as int == i
}

/// Well-formedness of a content value: every nested sequence is well formed.
pub open spec fn content_wf(c: Content) -> bool
    decreases c, 0int, 0int,
{
    match c {
        Content::Text(_) => true,
        Content::Strings(b) => sequence_wf(*b),
    }
}

/// Well-formedness of a sequence: its cache satisfies [`cache_wf`] and all
/// its fragments are well formed.
pub open spec fn sequence_wf(s: AnsiGenericStrings) -> bool
    decreases s, 3int, 0int,
{
    &&& cache_wf(s.style_updates@, s.strings@.len() as int)
    &&& vec_wf(s.strings)
}

/// Well-formedness of a fragment vector.
pub open spec fn vec_wf(v: Vec<AnsiGenericString>) -> bool
    decreases v, 2int, 0int,
{
    frags_wf(v@)
}

/// Well-formedness of every fragment of a list.
pub open spec fn frags_wf(fs: Seq<AnsiGenericString>) -> bool
    decreases fs, 1int, 0int,
{
    if fs.len() == 0 {
        true
    } else {
        fragment_wf(fs[0]) && frags_wf(fs.drop_first())
    }
}

/// Well-formedness of a fragment: its content, and the content of a link
/// annotation, are well formed.
pub open spec fn fragment_wf(f: AnsiGenericString) -> bool
    decreases f, 9int, 0int,
{
    &&& content_wf(f.content)
    &&& osc_opt_wf(f.oscontrol)
}

/// Well-formedness of an optional annotation.
pub open spec fn osc_opt_wf(o: Option<OSControl>) -> bool
    decreases o, 8int, 0int,
{
    match o {
        Option::None => true,
        Option::Some(x) => osc_wf(x),
    }
}

/// Well-formedness of an annotation.
pub open spec fn osc_wf(x: OSControl) -> bool
    decreases x, 7int, 0int,
{
    match x {
        OSControl::Title => true,
        OSControl::Link { url } => content_wf(url),
    }
}

/// The update most recently declared at or before position `pos`: the last
/// entry of `ups` whose `begins_at` is at most `pos`, if any.
pub open spec fn spec_decode(ups: Seq<StyleUpdate>, pos: int) -> Option<StyleUpdate>
    decreases ups.len(),
{
    if ups.len() == 0 {
        None
    } else if ups.last().begins_at <= pos {
        Some(ups.last())
    } else {
        spec_decode(ups.drop_last(), pos)
    }
}

/// The delta in effect at position `pos`: the decoded update's delta, or
/// `Empty` when no update has become active yet.
pub open spec fn spec_delta_at(ups: Seq<StyleUpdate>, pos: int) -> StyleDelta {
    match spec_decode(ups, pos) {
        None => StyleDelta::Empty,
        Some(u) => u.style_delta,
    }
}

/// The styles of a fragment list.
pub open spec fn styles_of(fs: Seq<AnsiGenericString>) -> Seq<Style> {
    fs.map_values(|f: AnsiGenericString| f.style)
}

/// The style in effect before fragment `i` in a fresh walk: the plain style
/// at the start, the previous fragment's style otherwise.
pub open spec fn prev_style(styles: Seq<Style>, i: int) -> Style {
    if i == 0 {
        Style::spec_plain()
    } else {
        styles[i - 1]
    }
}

/// The updates a fresh walk computes for `styles` from index `from` on:
/// each fragment's delta against the style carried forward from its
/// predecessor.
pub open spec fn spec_updates_from(styles: Seq<Style>, from: int) -> Seq<StyleUpdate> {
    Seq::new(
        (styles.len() - from) as nat,
        |j: int|
            StyleUpdate {
                style_delta: prev_style(styles, from + j).spec_compute_delta(styles[from + j]),
                begins_at: (from + j) as usize,
            },
    )
}

/// The updates a fresh walk computes for `styles`.
pub open spec fn spec_updates(styles: Seq<Style>) -> Seq<StyleUpdate> {
    spec_updates_from(styles, 0)
}

/// The cache a read of the transition list returns: the stored one when it
/// is fresh (one entry per fragment), a fresh walk's result otherwise.
pub open spec fn spec_fresh_updates(s: AnsiGenericStrings) -> Seq<StyleUpdate> {
    if s.style_updates@.len() == s.strings@.len() {
        s.style_updates@
    } else {
        spec_updates(styles_of(s.strings@))
    }
}

/// The text a content value renders to: its own characters for text, the
/// full rendering of the nested sequence otherwise.
pub open spec fn spec_content_text(c: Content) -> Seq<char>
    decreases c, 0int, 0int,
{
    match c {
        Content::Text(s) => s@,
        Content::Strings(b) => spec_sequence_text(*b),
    }
}

/// The text a sequence renders to, using its stored transition list as is.
pub open spec fn spec_sequence_text(s: AnsiGenericStrings) -> Seq<char>
    decreases s, 4int, 0int,
{
    spec_render_vec(s.strings, s.style_updates@)
}

/// The text a fragment vector renders to under the transition list `ups`.
pub open spec fn spec_render_vec(v: Vec<AnsiGenericString>, ups: Seq<StyleUpdate>) -> Seq<char>
    decreases v, 3int, 0int,
{
    spec_render(v@, ups)
}

/// The text a fragment list renders to under the transition list `ups`: the
/// per-fragment pieces, then a trailing reset unless the last emitted style
/// was plain (or none was ever emitted).
pub open spec fn spec_render(fs: Seq<AnsiGenericString>, ups: Seq<StyleUpdate>) -> Seq<char>
    decreases fs, 2int, 0int,
{
    spec_body(fs, ups, fs.len() as int) + if spec_last_plain(ups, fs.len() as int) {
        Seq::empty()
    } else {
        reset_seq()
    }
}

/// The concatenation of the first `i` fragments' rendered pieces: for each
/// fragment, the prefix of its decoded delta (nothing for `Empty`), then its
/// wrapped content.
pub open spec fn spec_body(fs: Seq<AnsiGenericString>, ups: Seq<StyleUpdate>, i: int) -> Seq<char>
    decreases fs, 1int, i,
{
    if 0 < i <= fs.len() {
        spec_body(fs, ups, i - 1) + (match spec_delta_at(ups, i - 1) {
            StyleDelta::Empty => Seq::empty(),
            StyleDelta::ExtraStyles(s) => spec_prefix(s, false),
        }) + spec_fragment_inner(fs[i - 1])
    } else {
        Seq::empty()
    }
}

/// Whether, after the deltas of the first `i` positions, the last non-empty
/// delta rendered the plain style — true as well when no delta was ever
/// non-empty.
pub open spec fn spec_last_plain(ups: Seq<StyleUpdate>, i: int) -> bool
    decreases i,
{
    if i <= 0 {
        true
    } else {
        match spec_delta_at(ups, i - 1) {
            StyleDelta::Empty => spec_last_plain(ups, i - 1),
            StyleDelta::ExtraStyles(s) => s.is_plain_look(),
        }
    }
}

/// The inner part of a fragment's rendering: its content text, wrapped by
/// its annotation's escape codes when it carries one.
pub open spec fn spec_fragment_inner(f: AnsiGenericString) -> Seq<char>
    decreases f, 9int, 0int,
{
    spec_wrapped(f.oscontrol, spec_content_text(f.content))
}

/// `inner` wrapped by the annotation's escape codes, if any.
pub open spec fn spec_wrapped(o: Option<OSControl>, inner: Seq<char>) -> Seq<char>
    decreases o, 8int, 0int,
{
    match o {
        Option::None => inner,
        Option::Some(x) => spec_osc_wrapped(x, inner),
    }
}

/// `inner` wrapped by a concrete annotation: a title is wrapped between the
/// title opener and the string terminator; a link is wrapped between the
/// hyperlink opener (carrying the url) and the hyperlink closer.
pub open spec fn spec_osc_wrapped(x: OSControl, inner: Seq<char>) -> Seq<char>
    decreases x, 7int, 0int,
{
    match x {
        OSControl::Title => "\x1B]2;"@ + inner + "\x1B\\"@,
        OSControl::Link { url } => "\x1B]8;;"@ + spec_content_text(url) + "\x1B\\"@ + inner
            + "\x1B]8;;\x1B\\"@,
    }
}

/// The full rendering of a single fragment on its own: its style's prefix,
/// the wrapped content, and its style's suffix.
pub open spec fn spec_fragment_render(f: AnsiGenericString) -> Seq<char>
    decreases f, 10int, 0int,
{
    spec_prefix(f.style, false) + spec_fragment_inner(f) + spec_suffix(f.style)
}

impl Content {
    /// Text content holding a copy of `s`.
    pub fn text(s: &str) -> (r: Content)
        ensures
            r matches Content::Text(t) && t@ == s@,
            content_wf(r),
    {
        Content::Text(String::from_str(s))
    }

    /// Content holding a nested sequence of fragments.
    pub fn nested(s: AnsiGenericStrings) -> (r: Content)
        ensures
            r matches Content::Strings(b) && *b == s,
            sequence_wf(s) ==> content_wf(r),
    {
        Content::Strings(Box::new(s))
    }
}

impl AnsiGenericString {
    /// A fragment from its three parts.
    pub fn new(style: Style, content: Content, oscontrol: Option<OSControl>) -> (r:
        AnsiGenericString)
        ensures
            r == (AnsiGenericString { style, content, oscontrol }),
    {
        AnsiGenericString { style, content, oscontrol }
    }

    /// Directly access the style.
    pub fn style_ref(&self) -> (r: &Style)
        ensures
            *r == self.style,
    {
        &self.style
    }

    /// Directly access the style mutably.
    pub fn style_ref_mut(&mut self) -> (r: &mut Style)
        ensures
            *r == old(self).style,
            *final(self) == (AnsiGenericString { style: *final(r), ..*old(self) }),
    {
        &mut self.style
    }

    /// The content of this fragment.
    pub fn content(&self) -> (r: &Content)
        ensures
            *r == self.content,
    {
        &self.content
    }

    /// The annotation of this fragment, if any.
    pub fn oscontrol(&self) -> (r: &Option<OSControl>)
        ensures
            *r == self.oscontrol,
    {
        &self.oscontrol
    }

    /// A plain-styled fragment that sets the terminal title to `content`.
    pub fn title_content(content: Content) -> (r: AnsiGenericString)
        ensures
            r.style == Style::spec_plain(),
            r.content == content,
            r.oscontrol == Some(OSControl::Title),
            content_wf(content) ==> fragment_wf(r),
    {
        AnsiGenericString {
            style: Style::new(),
            content,
            oscontrol: Some(OSControl::Title),
        }
    }

    /// A plain-styled fragment that sets the terminal title to `s`.
    pub fn title(s: &str) -> (r: AnsiGenericString)
        ensures
            r.style == Style::spec_plain(),
            r.content matches Content::Text(t) && t@ == s@,
            r.oscontrol == Some(OSControl::Title),
            fragment_wf(r),
    {
        AnsiGenericString {
            style: Style::new(),
            content: Content::text(s),
            oscontrol: Some(OSControl::Title),
        }
    }

    /// This fragment, made a clickable link to `url`.
    pub fn hyperlink_content(self, url: Content) -> (r: AnsiGenericString)
        ensures
            r == (AnsiGenericString { oscontrol: Some(OSControl::Link { url }), ..self }),
    {
        AnsiGenericString { oscontrol: Some(OSControl::Link { url }), ..self }
    }

    /// This fragment, made a clickable link to `url`.
    pub fn hyperlink(self, url: &str) -> (r: AnsiGenericString)
        ensures
            r.style == self.style,
            r.content == self.content,
            r.oscontrol matches Some(OSControl::Link { url: u }) && u matches Content::Text(t)
                && t@ == url@,
    {
        AnsiGenericString {
            oscontrol: Some(OSControl::Link { url: Content::text(url) }),
            ..self
        }
    }

    /// The url this fragment links to, if it carries a link annotation.
    pub fn url_string(&self) -> (r: Option<&Content>)
        ensures
            r is Some <==> self.oscontrol matches Some(OSControl::Link { url }),
            self.oscontrol matches Some(OSControl::Link { url }) ==> r matches Some(u) && *u
                == url,
    {
        match &self.oscontrol {
            Some(OSControl::Link { url }) => Some(url),
            _ => None,
        }
    }

    /// This fragment with its style rebased onto `base`: attributes OR-merge,
    /// colors fall through from `base` where this fragment set none.
    pub fn rebase_on(self, base: Style) -> (r: AnsiGenericString)
        ensures
            r == (AnsiGenericString { style: self.style.spec_rebase_on(base), ..self }),
    {
        let style = self.style.rebase_on(base);
        AnsiGenericString { style, ..self }
    }
}

/// The rebased form of one cached update: a non-empty delta whose style asks
/// for a reset is merged onto `base`; everything else is untouched.
pub open spec fn spec_rebase_update(u: StyleUpdate, base: Style) -> StyleUpdate {
    match u.style_delta {
        StyleDelta::ExtraStyles(s) => if s.reset_prefix {
            StyleUpdate {
                style_delta: StyleDelta::ExtraStyles(s.spec_rebase_on(base)),
                begins_at: u.begins_at,
            }
        } else {
            u
        },
        StyleDelta::Empty => u,
    }
}

/// The rebased form of a cached transition list.
pub open spec fn spec_rebased(ups: Seq<StyleUpdate>, base: Style) -> Seq<StyleUpdate> {
    ups.map_values(|u: StyleUpdate| spec_rebase_update(u, base))
}

/// A fresh walk over one more style appends one more update, computed
/// against the last style before it.
pub proof fn lemma_updates_extend(styles: Seq<Style>, st: Style)
    ensures
        spec_updates(styles.push(st)) =~= spec_updates(styles).push(
            StyleUpdate {
                style_delta: prev_style(styles.push(st), styles.len() as int).spec_compute_delta(
                    st,
                ),
                begins_at: styles.len() as usize,
            },
        ),
{
    let whole = styles.push(st);
    assert forall|j: int| 0 <= j < styles.len() implies spec_updates(whole)[j] == spec_updates(
        styles,
    )[j] by {
        assert(whole[j] == styles[j]);
        if j > 0 {
            assert(whole[j - 1] == styles[j - 1]);
        }
    }
}

impl AnsiGenericStrings {
    /// A sequence over the given fragments, with the transition list left to
    /// be computed on first read.
    pub fn new(strings: Vec<AnsiGenericString>) -> (r: AnsiGenericStrings)
        ensures
            r.strings@ == strings@,
            r.style_updates@ == Seq::<StyleUpdate>::empty(),
            frags_wf(strings@) ==> sequence_wf(r),
    {
        AnsiGenericStrings { strings, style_updates: Vec::new() }
    }

    /// An empty sequence with the given capacity.
    pub fn with_capacity(capacity: usize) -> (r: AnsiGenericStrings)
        ensures
            r.strings@ == Seq::<AnsiGenericString>::empty(),
            r.style_updates@ == Seq::<StyleUpdate>::empty(),
            sequence_wf(r),
    {
        AnsiGenericStrings {
            strings: Vec::with_capacity(capacity),
            style_updates: Vec::with_capacity(capacity),
        }
    }

    /// The number of fragments.
    pub fn len(&self) -> (r: usize)
        ensures
            r == self.strings@.len(),
    {
        self.strings.len()
    }

    /// The fragment at index `ix`.
    pub fn get(&self, ix: usize) -> (r: &AnsiGenericString)
        requires
            ix < self.strings@.len(),
        ensures
            *r == self.strings@[ix as int],
    {
        &self.strings[ix]
    }

    /// Recompute the whole transition list by a fresh walk from the plain
    /// style.
    fn calculate_style_updates(&mut self)
        ensures
            final(self).strings@ == old(self).strings@,
            final(self).style_updates@ == spec_updates(styles_of(old(self).strings@)),
    {
        let ghost styles = styles_of(self.strings@);
        let mut ups: Vec<StyleUpdate> = Vec::new();
        let mut i: usize = 0;
        assert(ups@ =~= spec_updates(styles).take(0));
        while i < self.strings.len()
            invariant
                i <= self.strings@.len(),
                styles == styles_of(self.strings@),
                ups@ == spec_updates(styles).take(i as int),
            decreases self.strings@.len() - i,
        {
            let prev: Style = if i == 0 {
                Style::new()
            } else {
                self.strings[i - 1].style
            };
            let next: Style = self.strings[i].style;
            let delta = prev.compute_delta(next);
            ups.push(StyleUpdate { style_delta: delta, begins_at: i });
            proof {
                assert(styles[i as int] == next);
                assert(prev == prev_style(styles, i as int));
                assert(spec_updates(styles)[i as int] == StyleUpdate {
                    style_delta: prev.spec_compute_delta(next),
                    begins_at: i,
                });
                assert(ups@ =~= spec_updates(styles).take(i + 1));
            }
            i = i + 1;
        }
        proof {
            assert(spec_updates(styles).take(styles.len() as int) =~= spec_updates(styles));
        }
        self.style_updates = ups;
    }

    /// The transition list, recomputed first when it is stale (its length
    /// does not match the fragment count).
    pub fn style_updates(&mut self) -> (r: &Vec<StyleUpdate>)
        requires
            cache_wf(old(self).style_updates@, old(self).strings@.len() as int),
        ensures
            final(self).strings@ == old(self).strings@,
            final(self).style_updates@ == spec_fresh_updates(*old(self)),
            r@ == final(self).style_updates@,
            cache_wf(final(self).style_updates@, final(self).strings@.len() as int),
            frags_wf(old(self).strings@) ==> sequence_wf(*final(self)),
    {
        let n = self.strings.len();
        if n != self.style_updates.len() {
            self.calculate_style_updates();
            proof {
                lemma_spec_updates_cache_wf(styles_of(self.strings@));
            }
        }
        &self.style_updates
    }

    /// Append `s`, computing its single transition against the style of the
    /// fragment before it (the plain style when there is none).
    pub fn push(&mut self, s: AnsiGenericString)
        requires
            old(self).strings@.len() < usize::MAX,
            cache_wf(old(self).style_updates@, old(self).strings@.len() as int),
        ensures
            final(self).strings@ == old(self).strings@.push(s),
            final(self).style_updates@ == old(self).style_updates@.push(
                StyleUpdate {
                    style_delta: prev_style(
                        styles_of(final(self).strings@),
                        old(self).strings@.len() as int,
                    ).spec_compute_delta(s.style),
                    begins_at: old(self).strings@.len() as usize,
                },
            ),
            cache_wf(final(self).style_updates@, final(self).strings@.len() as int),
            fragment_wf(s) && frags_wf(old(self).strings@) ==> frags_wf(final(self).strings@),
    {
        let n = self.strings.len();
        let prev: Style = if n == 0 {
            Style::new()
        } else {
            self.strings[n - 1].style
        };
        let delta = prev.compute_delta(s.style);
        let ghost st = s.style;
        self.strings.push(s);
        self.style_updates.push(StyleUpdate { style_delta: delta, begins_at: n });
        proof {
            let styles = styles_of(self.strings@);
            assert(styles[n as int] == st);
            if n > 0 {
                assert(styles[n as int - 1] == old(self).strings@[n as int - 1].style);
            }
            assert(prev == prev_style(styles, n as int));
            let ups = self.style_updates@;
            let old_ups = old(self).style_updates@;
            assert forall|i: int, j: int| 0 <= i < j < ups.len() implies (#[trigger] ups[i].begins_at)
                < (#[trigger] ups[j].begins_at) by {
                if j < old_ups.len() {
                } else {
                    assert(ups[j].begins_at == n);
                    assert(old_ups[i].begins_at < n);
                }
            }
            if ups.len() == self.strings@.len() {
                assert forall|i: int| 0 <= i < ups.len() implies (#[trigger] ups[i].begins_at) as int
                    == i by {
                    if i < old_ups.len() {
                        assert(old_ups.len() == old(self).strings@.len());
                    }
                }
            }
            if frags_wf(old(self).strings@) && fragment_wf(s) {
                lemma_frags_wf_push(old(self).strings@, s);
            }
        }
    }

    /// Rebase this sequence onto an ambient `base` style: every cached
    /// non-empty transition whose style asks for a reset is merged onto
    /// `base`, so that re-applying it restores the ambient styling it would
    /// otherwise wipe. The transition list is recomputed first if stale.
    pub fn rebase_on(self, base: Style) -> (r: AnsiGenericStrings)
        requires
            cache_wf(self.style_updates@, self.strings@.len() as int),
        ensures
            r.strings@ == self.strings@,
            r.style_updates@ == spec_rebased(spec_fresh_updates(self), base),
            cache_wf(r.style_updates@, r.strings@.len() as int),
            frags_wf(self.strings@) ==> sequence_wf(r),
    {
        let mut this = self;
        if this.strings.len() != this.style_updates.len() {
            this.calculate_style_updates();
            proof {
                lemma_spec_updates_cache_wf(styles_of(this.strings@));
            }
        }
        let ghost fresh = this.style_updates@;
        let mut i: usize = 0;
        while i < this.style_updates.len()
            invariant
                i <= this.style_updates@.len(),
                this.style_updates@.len() == fresh.len(),
                this.strings@ == self.strings@,
                forall|j: int|
                    0 <= j < i ==> this.style_updates@[j] == #[trigger] spec_rebase_update(
                        fresh[j],
                        base,
                    ),
                forall|j: int| i <= j < fresh.len() ==> this.style_updates@[j] == fresh[j],
                cache_wf(fresh, this.strings@.len() as int),
            decreases this.style_updates@.len() - i,
        {
            let u = this.style_updates[i];
            match u.style_delta {
                StyleDelta::ExtraStyles(s) => {
                    if s.reset_prefix {
                        this.style_updates[i] = StyleUpdate {
                            style_delta: StyleDelta::ExtraStyles(s.rebase_on(base)),
                            begins_at: u.begins_at,
                        };
                    }
                },
                StyleDelta::Empty => {},
            }
            i = i + 1;
        }
        proof {
            assert(this.style_updates@ =~= spec_rebased(fresh, base));
            assert forall|j: int| 0 <= j < this.style_updates@.len() implies (
            #[trigger] this.style_updates@[j].begins_at) == fresh[j].begins_at by {
                assert(this.style_updates@[j] == spec_rebase_update(fresh[j], base));
            }
        }
        this
    }
}

/// A fresh walk's transition list satisfies the cache invariant: one update
/// per fragment, at its own index.
pub proof fn lemma_spec_updates_cache_wf(styles: Seq<Style>)
    requires
        styles.len() <= usize::MAX,
    ensures
        cache_wf(spec_updates(styles), styles.len() as int),
{
    let ups = spec_updates(styles);
    assert(ups.len() == styles.len());
    assert forall|i: int| 0 <= i < ups.len() implies (#[trigger] ups[i].begins_at) as int == i by {
        assert(ups[i] == StyleUpdate {
            style_delta: prev_style(styles, i).spec_compute_delta(styles[i]),
            begins_at: i as usize,
        });
    }
    assert forall|i: int, j: int| 0 <= i < j < ups.len() implies (#[trigger] ups[i].begins_at) < (
    #[trigger] ups[j].begins_at) by {
        assert(ups[i].begins_at as int == i);
        assert(ups[j].begins_at as int == j);
    }
}

/// A sequence built from the given fragments, with its transition list
/// computed as each fragment is pushed.
#[allow(non_snake_case)]
pub fn AnsiStrings(arg: Vec<AnsiString>) -> (r: AnsiStrings)
    requires
        frags_wf(arg@),
    ensures
        r.strings@ == arg@,
        r.style_updates@ == spec_updates(styles_of(arg@)),
        sequence_wf(r),
{
    let ghost orig = arg@;
    let mut arg = arg;
    let mut r = AnsiGenericStrings::with_capacity(arg.len());
    proof {
        assert(r.strings@ =~= orig.take(0));
        assert(r.style_updates@ =~= spec_updates(styles_of(orig.take(0))));
    }
    while arg.len() > 0
        invariant
            arg@ == orig.skip(orig.len() - arg@.len()),
            arg@.len() <= orig.len(),
            orig.len() <= usize::MAX,
            frags_wf(orig),
            r.strings@ == orig.take(orig.len() - arg@.len()),
            r.style_updates@ == spec_updates(styles_of(r.strings@)),
            frags_wf(r.strings@),
        decreases arg@.len(),
    {
        let ghost k = orig.len() - arg@.len();
        let f = arg.remove(0);
        proof {
            assert(orig.skip(k)[0] == orig[k]);
            assert(f == orig[k]);
            assert(arg@ =~= orig.skip(k + 1));
            lemma_frags_wf_index(orig, k);
            lemma_updates_extend(styles_of(r.strings@), f.style);
        }
        let ghost before = r.strings@;
        r.push(f);
        proof {
            assert(r.strings@ =~= orig.take(k + 1));
            assert(styles_of(r.strings@) =~= styles_of(before).push(f.style));
            assert(r.style_updates@ =~= spec_updates(styles_of(r.strings@)));
        }
    }
    proof {
        assert(r.strings@ =~= orig);
        assert(orig.take(orig.len() as int) =~= orig);
    }
    r
}

/// A sequence of byte-sink fragments built from the given fragments.
#[allow(non_snake_case)]
pub fn AnsiByteStrings(arg: Vec<AnsiByteString>) -> (r: AnsiByteStrings)
    requires
        frags_wf(arg@),
    ensures
        r.strings@ == arg@,
        r.style_updates@ == spec_updates(styles_of(arg@)),
        sequence_wf(r),
{
    AnsiStrings(arg)
}

impl Style {
    /// Paint `input` with this style. Nested sequence content is rebased
    /// onto this style, so that cached transitions that reset the terminal
    /// re-apply the ambient styling.
    pub fn paint(self, input: Content) -> (r: AnsiGenericString)
        requires
            content_wf(input),
        ensures
            r.style == self,
            r.oscontrol is None,
            fragment_wf(r),
            input matches Content::Text(t) ==> r.content == input,
            input matches Content::Strings(b) ==> r.content matches Content::Strings(b2) && (
            *b2).strings@ == (*b).strings@ && (*b2).style_updates@ == spec_rebased(
                spec_fresh_updates(*b),
                self,
            ),
    {
        let content = match input {
            Content::Strings(b) => {
                let inner = *b;
                Content::Strings(Box::new(inner.rebase_on(self)))
            },
            x => x,
        };
        AnsiGenericString { style: self, content, oscontrol: None }
    }
}

/// The smallest index named by a non-empty edit list.
pub open spec fn spec_min_index(es: Seq<(usize, AnsiGenericString)>) -> int
    decreases es.len(),
{
    if es.len() <= 1 {
        es[0].0 as int
    } else {
        let m = spec_min_index(es.drop_last());
        if (es.last().0 as int) < m {
            es.last().0 as int
        } else {
            m
        }
    }
}

/// Where a stable insertion by index puts `key` into the sorted list: after
/// every entry whose index is at most `key`.
pub open spec fn spec_insert_pos(sorted: Seq<(usize, AnsiGenericString)>, key: usize) -> int
    decreases sorted.len(),
{
    if sorted.len() == 0 {
        0
    } else if sorted.last().0 <= key {
        sorted.len() as int
    } else {
        spec_insert_pos(sorted.drop_last(), key)
    }
}

/// One step of the stable insertion sort of an edit list.
pub open spec fn spec_sorted_insert(
    sorted: Seq<(usize, AnsiGenericString)>,
    e: (usize, AnsiGenericString),
) -> Seq<(usize, AnsiGenericString)> {
    sorted.insert(spec_insert_pos(sorted, e.0), e)
}

/// The edit list sorted by index, stably: edits naming the same index keep
/// their order.
pub open spec fn spec_sort_edits(es: Seq<(usize, AnsiGenericString)>) -> Seq<
    (usize, AnsiGenericString),
>
    decreases es.len(),
{
    if es.len() == 0 {
        Seq::empty()
    } else {
        spec_sorted_insert(spec_sort_edits(es.drop_last()), es.last())
    }
}

/// One edit applied to a fragment list: an index inside `orig_len` replaces
/// that fragment, any other index appends.
pub open spec fn spec_apply_one(
    s: Seq<AnsiGenericString>,
    e: (usize, AnsiGenericString),
    orig_len: int,
) -> Seq<AnsiGenericString> {
    if (e.0 as int) < orig_len {
        s.update(e.0 as int, e.1)
    } else {
        s.push(e.1)
    }
}

/// The edits applied to a fragment list, first to last.
pub open spec fn spec_apply_edits(
    s: Seq<AnsiGenericString>,
    es: Seq<(usize, AnsiGenericString)>,
    orig_len: int,
) -> Seq<AnsiGenericString>
    decreases es.len(),
{
    if es.len() == 0 {
        s
    } else {
        spec_apply_edits(spec_apply_one(s, es[0], orig_len), es.drop_first(), orig_len)
    }
}

/// Applying one more edit after a batch is the batch followed by that edit.
pub proof fn lemma_apply_snoc(
    s: Seq<AnsiGenericString>,
    es: Seq<(usize, AnsiGenericString)>,
    e: (usize, AnsiGenericString),
    orig_len: int,
)
    ensures
        spec_apply_edits(s, es.push(e), orig_len) == spec_apply_one(
            spec_apply_edits(s, es, orig_len),
            e,
            orig_len,
        ),
    decreases es.len(),
{
    if es.len() == 0 {
        assert(es.push(e)[0] == e);
        assert(es.push(e).drop_first() =~= Seq::<(usize, AnsiGenericString)>::empty());
        assert(spec_apply_edits(s, es.push(e), orig_len) == spec_apply_edits(
            spec_apply_one(s, e, orig_len),
            es.push(e).drop_first(),
            orig_len,
        ));
    } else {
        assert(es.push(e)[0] == es[0]);
        assert(es.push(e).drop_first() =~= es.drop_first().push(e));
        lemma_apply_snoc(spec_apply_one(s, es[0], orig_len), es.drop_first(), e, orig_len);
        assert(spec_apply_edits(s, es.push(e), orig_len) == spec_apply_edits(
            spec_apply_one(s, es[0], orig_len),
            es.drop_first().push(e),
            orig_len,
        ));
        assert(spec_apply_edits(s, es, orig_len) == spec_apply_edits(
            spec_apply_one(s, es[0], orig_len),
            es.drop_first(),
            orig_len,
        ));
    }
}

/// How many cached updates an edit batch keeps: everything before the
/// smallest edited index, bounded by the fragment count.
pub open spec fn spec_kept(es: Seq<(usize, AnsiGenericString)>, orig_len: int) -> int {
    if spec_min_index(es) < orig_len {
        spec_min_index(es)
    } else {
        orig_len
    }
}

/// The `begins_at` indices of `ups` are strictly increasing.
pub open spec fn updates_increasing(ups: Seq<StyleUpdate>) -> bool {
    forall|i: int, j: int|
        0 <= i < j < ups.len() ==> #[trigger] ups[i].begins_at < #[trigger] ups[j].begins_at
}

/// What the run decoder yields at position `pos`: the last update declared
/// at or before `pos`, if any, mapped to its delta.
pub open spec fn spec_next_delta(ups: Seq<StyleUpdate>, pos: int) -> Option<StyleDelta> {
    match spec_decode(ups, pos) {
        None => None,
        Some(u) => Some(u.style_delta),
    }
}

/// Entries past `k` that all begin after `pos` do not change the decoding
/// at `pos`.
pub proof fn lemma_decode_tail_late(ups: Seq<StyleUpdate>, k: int, pos: int)
    requires
        0 <= k <= ups.len(),
        forall|j: int| k <= j < ups.len() ==> (#[trigger] ups[j].begins_at) as int > pos,
    ensures
        spec_decode(ups, pos) == spec_decode(ups.take(k), pos),
    decreases ups.len() - k,
{
    if k == ups.len() {
        assert(ups.take(k) =~= ups);
    } else {
        assert(ups.last().begins_at as int > pos);
        assert(spec_decode(ups, pos) == spec_decode(ups.drop_last(), pos));
        assert(ups.drop_last() =~= ups.take(ups.len() - 1));
        lemma_decode_tail_late(ups.take(ups.len() - 1), k, pos);
        assert(ups.take(ups.len() - 1).take(k) =~= ups.take(k));
    }
}

/// Run decoder over a sparse transition list: successive calls of `next`
/// yield, for fragment positions 0, 1, 2, ... in turn, the delta most
/// recently declared at or before that position. The cursor never moves
/// backward.
pub struct StyleIter {
    /// The sparse transition list, with strictly increasing `begins_at`.
    pub instructions: Vec<StyleUpdate>,
    /// The next fragment position to be decoded.
    pub cursor: usize,
    /// The index of the first instruction not yet consumed.
    pub ix: usize,
    /// The most recently consumed instruction, if any.
    pub current: Option<StyleUpdate>,
    /// The instruction at `ix`, if any.
    pub next_update: Option<StyleUpdate>,
}

impl StyleIter {
    /// The decoder's internal consistency: instructions are strictly
    /// increasing, everything consumed began at or before the positions
    /// already decoded, and everything pending begins at the cursor or
    /// later.
    pub open spec fn wf(self) -> bool {
        &&& updates_increasing(self.instructions@)
        &&& self.ix <= self.instructions@.len()
        &&& self.next_update == (if (self.ix as int) < self.instructions@.len() {
            Some(self.instructions@[self.ix as int])
        } else {
            None::<StyleUpdate>
        })
        &&& self.current == (if self.ix == 0 {
            None::<StyleUpdate>
        } else {
            Some(self.instructions@[self.ix as int - 1])
        })
        &&& self.ix > 0 ==> (self.instructions@[self.ix as int - 1].begins_at as int)
            < self.cursor as int
        &&& (self.ix as int) < self.instructions@.len() ==> (self.instructions@[self.ix as int].begins_at as int)
            >= self.cursor as int
    }

    /// A decoder over `instructions`, positioned before position 0.
    pub fn new(instructions: Vec<StyleUpdate>) -> (r: StyleIter)
        requires
            updates_increasing(instructions@),
        ensures
            r.wf(),
            r.instructions@ == instructions@,
            r.cursor == 0,
    {
        let next_update: Option<StyleUpdate> = if instructions.len() > 0 {
            Some(instructions[0])
        } else {
            None
        };
        StyleIter { instructions, cursor: 0, ix: 0, current: None, next_update }
    }

    /// Advance `ix` past a consumed instruction, caching the one after it.
    fn get_next_update(&mut self)
        requires
            (old(self).ix as int) < old(self).instructions@.len(),
        ensures
            final(self).ix == old(self).ix + 1,
            final(self).instructions == old(self).instructions,
            final(self).cursor == old(self).cursor,
            final(self).current == old(self).current,
            final(self).next_update == (if (final(self).ix as int)
                < final(self).instructions@.len() {
                Some(final(self).instructions@[final(self).ix as int])
            } else {
                None::<StyleUpdate>
            }),
    {
        let n = self.instructions.len();
        self.ix = self.ix + 1;
        self.next_update = if self.ix < n {
            Some(self.instructions[self.ix])
        } else {
            None
        };
    }

    /// The delta in effect at the next position, advancing the cursor.
    pub fn next(&mut self) -> (r: Option<StyleDelta>)
        requires
            old(self).wf(),
            old(self).cursor < usize::MAX,
        ensures
            final(self).wf(),
            final(self).instructions@ == old(self).instructions@,
            final(self).cursor == old(self).cursor + 1,
            r == spec_next_delta(old(self).instructions@, old(self).cursor as int),
    {
        let ghost ups = self.instructions@;
        let ghost pos = self.cursor as int;
        while self.ix < self.instructions.len() && self.instructions[self.ix].begins_at
            <= self.cursor
            invariant
                updates_increasing(ups),
                self.instructions@ == ups,
                self.cursor as int == pos,
                pos < usize::MAX,
                self.ix <= ups.len(),
                self.next_update == (if (self.ix as int) < ups.len() {
                    Some(ups[self.ix as int])
                } else {
                    None::<StyleUpdate>
                }),
                self.current == (if self.ix == 0 {
                    None::<StyleUpdate>
                } else {
                    Some(ups[self.ix as int - 1])
                }),
                self.ix > 0 ==> (ups[self.ix as int - 1].begins_at as int) <= pos,
            decreases ups.len() - self.ix,
        {
            self.current = Some(self.instructions[self.ix]);
            self.get_next_update();
        }
        proof {
            let k = self.ix as int;
            assert forall|j: int| k <= j < ups.len() implies (#[trigger] ups[j].begins_at) as int
                > pos by {
                if j > k {
                    assert(ups[k].begins_at < ups[j].begins_at);
                }
            }
            lemma_decode_tail_late(ups, k, pos);
            if k == 0 {
                assert(ups.take(0).len() == 0);
                assert(spec_decode(ups.take(0), pos) is None);
            } else {
                let taken = ups.take(k);
                assert(taken.last() == ups[k - 1]);
                assert(taken.last().begins_at as int <= pos);
                assert(spec_decode(taken, pos) == Some(ups[k - 1]));
            }
        }
        let r: Option<StyleDelta> = match self.current {
            None => None,
            Some(u) => Some(u.style_delta),
        };
        self.cursor = self.cursor + 1;
        r
    }
}

/// Iterator over the contents of a sequence, yielding each fragment's
/// content and annotation by reference, in order.
pub struct ContentIter<'b> {
    /// The next fragment position.
    pub cursor: usize,
    /// The fragments walked over.
    pub strings: &'b Vec<AnsiGenericString>,
}

impl<'b> ContentIter<'b> {
    /// The next fragment's content and annotation, if one is left.
    pub fn next(&mut self) -> (r: Option<(&'b Content, &'b Option<OSControl>)>)
        ensures
            final(self).strings == old(self).strings,
            (old(self).cursor as int) < old(self).strings@.len() ==> (r matches Some(p)
                && *p.0 == old(self).strings@[old(self).cursor as int].content
                && *p.1 == old(self).strings@[old(self).cursor as int].oscontrol
                && final(self).cursor == old(self).cursor + 1),
            (old(self).cursor as int) >= old(self).strings@.len() ==> (r is None
                && final(self).cursor == old(self).cursor),
    {
        if self.cursor < self.strings.len() {
            let frag = &self.strings[self.cursor];
            self.cursor = self.cursor + 1;
            Some((&frag.content, &frag.oscontrol))
        } else {
            None
        }
    }
}

/// Iterator over everything the renderer needs for each fragment of a
/// sequence: the decoded delta, the content, and the annotation, in order.
pub struct WriteIter<'b> {
    /// The run decoder over the sequence's transition list.
    pub style_iter: StyleIter,
    /// The walk over the sequence's fragments.
    pub content_iter: ContentIter<'b>,
}

impl<'b> WriteIter<'b> {
    /// The two walks are internally consistent and in step.
    pub open spec fn wf(self) -> bool {
        &&& self.style_iter.wf()
        &&& self.style_iter.cursor == self.content_iter.cursor
        &&& self.content_iter.cursor <= self.content_iter.strings@.len()
    }

    /// The next fragment's decoded delta, content and annotation, if a
    /// fragment is left.
    pub fn next(&mut self) -> (r: Option<(StyleDelta, &'b Content, &'b Option<OSControl>)>)
        requires
            old(self).wf(),
        ensures
            final(self).wf(),
            final(self).content_iter.strings == old(self).content_iter.strings,
            final(self).style_iter.instructions@ == old(self).style_iter.instructions@,
            (old(self).content_iter.cursor as int) < old(self).content_iter.strings@.len() ==> (
            r matches Some(t)
                && t.0 == spec_delta_at(
                old(self).style_iter.instructions@,
                old(self).content_iter.cursor as int,
            )
                && *t.1 == old(self).content_iter.strings@[old(self).content_iter.cursor as int].content
                && *t.2 == old(self).content_iter.strings@[old(self).content_iter.cursor as int].oscontrol
                && final(self).content_iter.cursor == old(self).content_iter.cursor + 1),
            (old(self).content_iter.cursor as int) >= old(self).content_iter.strings@.len() ==> (
            r is None && final(self).content_iter.cursor == old(self).content_iter.cursor),
    {
        let n = self.content_iter.strings.len();
        proof {
            assert(n == self.content_iter.strings@.len());
        }
        match self.content_iter.next() {
            None => None,
            Some((content, oscontrol)) => {
                let delta: StyleDelta = match self.style_iter.next() {
                    Some(d) => d,
                    None => StyleDelta::Empty,
                };
                Some((delta, content, oscontrol))
            },
        }
    }
}

/// A copy of a transition list.
fn copy_updates(v: &Vec<StyleUpdate>) -> (r: Vec<StyleUpdate>)
    ensures
        r@ == v@,
{
    let mut r: Vec<StyleUpdate> = Vec::new();
    let mut i: usize = 0;
    while i < v.len()
        invariant
            i <= v@.len(),
            r@ == v@.take(i as int),
        decreases v@.len() - i,
    {
        r.push(v[i]);
        proof {
            assert(r@ =~= v@.take(i + 1));
        }
        i = i + 1;
    }
    proof {
        assert(v@.take(v@.len() as int) =~= v@);
    }
    r
}

impl Content {
    /// The text this content renders to: its own characters, or the full
    /// rendering of the nested sequence.
    pub fn write_to(&self) -> (out: String)
        requires
            content_wf(*self),
        ensures
            out@ == spec_content_text(*self),
        decreases content_height(*self), 0int,
    {
        match self {
            Content::Text(s) => s.clone(),
            Content::Strings(b) => {
                proof {
                    assert(content_height(*self) == 1 + sequence_height(**b));
                }
                (**b).write_to_any()
            },
        }
    }
}

impl AnsiGenericString {
    /// The part of a fragment's rendering that lies inside its style's
    /// prefix and suffix: the content, wrapped by the annotation's escape
    /// codes when one is present.
    pub fn write_inner(content: &Content, oscontrol: &Option<OSControl>) -> (out: String)
        requires
            content_wf(*content),
            osc_opt_wf(*oscontrol),
        ensures
            out@ == spec_wrapped(*oscontrol, spec_content_text(*content)),
        decreases nat_max(content_height(*content), osc_opt_height(*oscontrol)), 1int,
    {
        match oscontrol {
            Some(OSControl::Link { url }) => {
                proof {
                    assert(osc_opt_height(*oscontrol) == 1 + content_height(*url));
                }
                let mut out = String::from_str("\x1B]8;;");
                let u = url.write_to();
                out.append(u.as_str());
                out.append("\x1B\\");
                let c = content.write_to();
                out.append(c.as_str());
                out.append("\x1B]8;;\x1B\\");
                out
            },
            Some(OSControl::Title) => {
                let mut out = String::from_str("\x1B]2;");
                let c = content.write_to();
                out.append(c.as_str());
                out.append("\x1B\\");
                out
            },
            None => content.write_to(),
        }
    }

    /// The full rendering of this fragment on its own: its style's prefix,
    /// the wrapped content, and its style's suffix.
    pub fn write_to_any(&self) -> (out: String)
        requires
            fragment_wf(*self),
        ensures
            out@ == spec_fragment_render(*self),
        decreases fragment_height(*self), 0int,
    {
        let mut out = self.style.prefix();
        let inner = Self::write_inner(&self.content, &self.oscontrol);
        out.append(inner.as_str());
        let suffix = self.style.suffix();
        out.append(suffix.as_str());
        out
    }

    /// The rendering of this fragment as UTF-8 bytes, for a byte sink.
    pub fn write_to(&self) -> (r: Vec<u8>)
        requires
            fragment_wf(*self),
        ensures
            r@ == vstd::utf8::encode_utf8(spec_fragment_render(*self)),
    {
        let s = self.write_to_any();
        s.as_str().as_bytes_vec()
    }
}

impl AnsiGenericStrings {
    /// Render this sequence: walk the fragments with the decoded transition
    /// list, emit each non-empty delta's prefix before its fragment's
    /// wrapped content, and finish with a single reset unless the last
    /// emitted style was plain (or none was ever emitted).
    ///
    /// The stored transition list is used as it stands: an empty list (as
    /// after [`AnsiGenericStrings::new`]) renders every fragment without
    /// any styling.
    pub fn write_to_any(&self) -> (out: String)
        requires
            sequence_wf(*self),
        ensures
            out@ == spec_sequence_text(*self),
        decreases sequence_height(*self), 0int,
    {
        let instr = copy_updates(&self.style_updates);
        let mut it = StyleIter::new(instr);
        let mut out = String::new();
        let mut last_is_plain = true;
        let mut i: usize = 0;
        let ghost ups = self.style_updates@;
        while i < self.strings.len()
            invariant
                sequence_wf(*self),
                it.wf(),
                it.instructions@ == ups,
                ups == self.style_updates@,
                it.cursor == i,
                i <= self.strings@.len(),
                out@ == spec_body(self.strings@, ups, i as int),
                last_is_plain == spec_last_plain(ups, i as int),
            decreases self.strings@.len() - i,
        {
            let d = it.next();
            match d {
                Some(StyleDelta::ExtraStyles(style)) => {
                    let p = style.prefix();
                    out.append(p.as_str());
                    last_is_plain = style.has_no_styling();
                },
                _ => {},
            }
            proof {
                lemma_frags_wf_index(self.strings@, i as int);
                lemma_frags_height_bound(self.strings@, i as int);
            }
            let frag = &self.strings[i];
            let inner = Self::write_inner_of(frag);
            out.append(inner.as_str());
            proof {
                assert(spec_delta_at(ups, i as int) == match spec_next_delta(ups, i as int) {
                    None => StyleDelta::Empty,
                    Some(x) => x,
                });
                assert(out@ =~= spec_body(self.strings@, ups, i + 1));
            }
            i = i + 1;
        }
        if !last_is_plain {
            out.append(RESET);
        }
        proof {
            assert(out@ =~= spec_render(self.strings@, ups));
        }
        out
    }

    /// The inner rendering of one fragment, shared by the sequence walk.
    fn write_inner_of(frag: &AnsiGenericString) -> (out: String)
        requires
            fragment_wf(*frag),
        ensures
            out@ == spec_fragment_inner(*frag),
        decreases fragment_height(*frag), 0int,
    {
        AnsiGenericString::write_inner(&frag.content, &frag.oscontrol)
    }

    /// An iterator over the decoded delta, content and annotation of each
    /// fragment, over the stored transition list as it stands.
    pub fn write_iter(&self) -> (r: WriteIter<'_>)
        requires
            cache_wf(self.style_updates@, self.strings@.len() as int),
        ensures
            r.wf(),
            r.style_iter.instructions@ == self.style_updates@,
            r.content_iter.strings@ == self.strings@,
            r.content_iter.cursor == 0,
    {
        let instructions = copy_updates(&self.style_updates);
        WriteIter {
            style_iter: StyleIter::new(instructions),
            content_iter: ContentIter { cursor: 0, strings: &self.strings },
        }
    }

    /// The rendering of this sequence as UTF-8 bytes, for a byte sink.
    pub fn write_to(&self) -> (r: Vec<u8>)
        requires
            sequence_wf(*self),
        ensures
            r@ == vstd::utf8::encode_utf8(spec_sequence_text(*self)),
    {
        let s = self.write_to_any();
        s.as_str().as_bytes_vec()
    }
}

/// The smallest index named by a non-empty edit list.
fn min_index_of(updates: &Vec<(usize, AnsiGenericString)>) -> (r: usize)
    requires
        updates@.len() > 0,
    ensures
        r as int == spec_min_index(updates@),
{
    let mut m: usize = updates[0].0;
    let mut i: usize = 1;
    assert(updates@.take(1).drop_last() =~= Seq::<(usize, AnsiGenericString)>::empty());
    assert(m as int == spec_min_index(updates@.take(1)));
    while i < updates.len()
        invariant
            1 <= i <= updates@.len(),
            m as int == spec_min_index(updates@.take(i as int)),
        decreases updates@.len() - i,
    {
        let k = updates[i].0;
        proof {
            assert(updates@.take(i + 1).drop_last() =~= updates@.take(i as int));
            assert(updates@.take(i + 1).last() == updates@[i as int]);
        }
        if k < m {
            m = k;
        }
        i = i + 1;
    }
    proof {
        assert(updates@.take(updates@.len() as int) =~= updates@);
    }
    m
}

/// The edit list sorted by index with a stable insertion sort: edits naming
/// the same index keep their order.
fn sort_edits(edits: Vec<(usize, AnsiGenericString)>) -> (r: Vec<(usize, AnsiGenericString)>)
    ensures
        r@ == spec_sort_edits(edits@),
        r@.len() == edits@.len(),
        (forall|i: int| 0 <= i < edits@.len() ==> fragment_wf((#[trigger] edits@[i]).1))
            ==> forall|i: int| 0 <= i < r@.len() ==> fragment_wf((#[trigger] r@[i]).1),
{
    let ghost orig = edits@;
    let ghost all_wf = forall|i: int| 0 <= i < orig.len() ==> fragment_wf((#[trigger] orig[i]).1);
    let mut edits = edits;
    let mut sorted: Vec<(usize, AnsiGenericString)> = Vec::new();
    proof {
        assert(sorted@ =~= spec_sort_edits(orig.take(0)));
    }
    while edits.len() > 0
        invariant
            edits@.len() <= orig.len(),
            edits@ == orig.skip(orig.len() - edits@.len()),
            sorted@ == spec_sort_edits(orig.take(orig.len() - edits@.len())),
            sorted@.len() == orig.len() - edits@.len(),
            all_wf == (forall|i: int|
                0 <= i < orig.len() ==> fragment_wf((#[trigger] orig[i]).1)),
            all_wf ==> forall|i: int|
                0 <= i < sorted@.len() ==> fragment_wf((#[trigger] sorted@[i]).1),
        decreases edits@.len(),
    {
        let ghost k = orig.len() - edits@.len();
        let ghost sorted_before = sorted@;
        let e = edits.remove(0);
        proof {
            assert(orig.skip(k)[0] == orig[k]);
            assert(e == orig[k]);
            assert(edits@ =~= orig.skip(k + 1));
        }
        let key = e.0;
        let mut p: usize = sorted.len();
        proof {
            assert(sorted@.take(p as int) =~= sorted@);
        }
        while p > 0 && sorted[p - 1].0 > key
            invariant
                p <= sorted@.len(),
                sorted@ == sorted_before,
                spec_insert_pos(sorted@, key) == spec_insert_pos(sorted@.take(p as int), key),
            decreases p,
        {
            proof {
                assert(sorted@.take(p as int).last() == sorted@[p as int - 1]);
                assert(sorted@.take(p as int).drop_last() =~= sorted@.take(p as int - 1));
            }
            p = p - 1;
        }
        proof {
            if p == 0 {
                assert(sorted@.take(0).len() == 0);
                assert(spec_insert_pos(sorted@, key) == 0);
            } else {
                assert(sorted@.take(p as int).last() == sorted@[p as int - 1]);
                assert(sorted@[p as int - 1].0 <= key);
                assert(spec_insert_pos(sorted@, key) == p as int);
            }
        }
        sorted.insert(p, e);
        proof {
            assert(orig.take(k + 1).drop_last() =~= orig.take(k));
            assert(orig.take(k + 1).last() == orig[k]);
            assert(sorted@ == spec_sort_edits(orig.take(k + 1)));
            if all_wf {
                assert forall|i: int| 0 <= i < sorted@.len() implies fragment_wf(
                    (#[trigger] sorted@[i]).1,
                ) by {
                    if i < p as int {
                        assert(sorted@[i] == sorted_before[i]);
                    } else if i == p as int {
                        assert(sorted@[i] == orig[k]);
                        assert(fragment_wf(orig[k].1));
                    } else {
                        assert(sorted@[i] == sorted_before[i - 1]);
                    }
                }
            }
        }
    }
    proof {
        assert(orig.take(orig.len() as int) =~= orig);
    }
    sorted
}

impl AnsiGenericStrings {
    /// Replace or append fragments in bulk. Each edit names an index: one
    /// inside the current range replaces that fragment, one past the end
    /// appends. Edits are applied in index order (ties keep their given
    /// order), and only the transitions from the smallest edited index on
    /// are recomputed: every cached update before it is kept unchanged.
    pub fn update_strings(self, updates: Vec<(usize, AnsiGenericString)>) -> (r:
        AnsiGenericStrings)
        requires
            cache_wf(self.style_updates@, self.strings@.len() as int),
            frags_wf(self.strings@),
            forall|i: int|
                0 <= i < updates@.len() ==> fragment_wf((#[trigger] updates@[i]).1),
            self.strings@.len() + updates@.len() <= usize::MAX,
        ensures
            updates@.len() == 0 ==> r == self,
            updates@.len() > 0 ==> r.strings@ == spec_apply_edits(
                self.strings@,
                spec_sort_edits(updates@),
                self.strings@.len() as int,
            ),
            updates@.len() > 0 ==> r.style_updates@ == spec_fresh_updates(self).take(
                spec_kept(updates@, self.strings@.len() as int),
            ) + spec_updates_from(
                styles_of(r.strings@),
                spec_kept(updates@, self.strings@.len() as int),
            ),
            cache_wf(r.style_updates@, r.strings@.len() as int),
            frags_wf(r.strings@),
    {
        if updates.is_empty() {
            return self;
        }
        let mut this = self;
        if this.strings.len() != this.style_updates.len() {
            this.calculate_style_updates();
            proof {
                lemma_spec_updates_cache_wf(styles_of(this.strings@));
            }
        }
        let ghost fresh = this.style_updates@;
        proof {
            assert(fresh == spec_fresh_updates(self));
        }
        let min_ix = min_index_of(&updates);
        let ghost sorted_spec = spec_sort_edits(updates@);
        let sorted = sort_edits(updates);
        proof {
            assert forall|i: int| 0 <= i < sorted_spec.len() implies fragment_wf(
                (#[trigger] sorted_spec[i]).1,
            ) by {
                assert(fragment_wf((sorted@[i]).1));
            }
        }
        let orig_len = this.strings.len();
        let ghost kept_spec = spec_kept(updates@, orig_len as int);
        let kept: usize = if min_ix < orig_len {
            min_ix
        } else {
            orig_len
        };
        let AnsiGenericStrings { strings, style_updates } = this;
        let ghost orig_strings = strings@;
        let mut strings = strings;
        let mut sorted = sorted;
        let ghost n_edits = sorted@.len();
        proof {
            assert(sorted_spec.take(0) =~= Seq::<(usize, AnsiGenericString)>::empty());
        }
        while sorted.len() > 0
            invariant
                sorted@.len() <= n_edits,
                n_edits == sorted_spec.len(),
                sorted@ == sorted_spec.skip(n_edits - sorted@.len()),
                strings@ == spec_apply_edits(
                    orig_strings,
                    sorted_spec.take(n_edits - sorted@.len()),
                    orig_len as int,
                ),
                strings@.len() <= orig_strings.len() + (n_edits - sorted@.len()),
                strings@.len() >= orig_strings.len(),
                orig_strings.len() == orig_len,
                orig_len + n_edits <= usize::MAX,
                frags_wf(strings@),
                forall|i: int|
                    0 <= i < sorted_spec.len() ==> fragment_wf((#[trigger] sorted_spec[i]).1),
            decreases sorted@.len(),
        {
            let ghost k = n_edits - sorted@.len();
            let ghost strings_before = strings@;
            let e = sorted.remove(0);
            proof {
                assert(sorted_spec.skip(k)[0] == sorted_spec[k]);
                assert(e == sorted_spec[k]);
                assert(sorted@ =~= sorted_spec.skip(k + 1));
                assert(fragment_wf(sorted_spec[k].1));
                lemma_apply_snoc(orig_strings, sorted_spec.take(k), e, orig_len as int);
                assert(sorted_spec.take(k).push(e) =~= sorted_spec.take(k + 1));
            }
            if e.0 < orig_len {
                let ix = e.0;
                proof {
                    assert(strings_before.len() > ix);
                    lemma_frags_wf_update_helper(strings_before, ix as int, e.1);
                }
                strings[ix] = e.1;
            } else {
                proof {
                    lemma_frags_wf_push(strings_before, e.1);
                }
                strings.push(e.1);
            }
            proof {
                assert(strings@ == spec_apply_edits(
                    orig_strings,
                    sorted_spec.take(k + 1),
                    orig_len as int,
                ));
            }
        }
        proof {
            assert(sorted_spec.take(n_edits as int) =~= sorted_spec);
        }
        let mut ups = style_updates;
        ups.truncate(kept);
        proof {
            assert(ups@ =~= fresh.take(kept as int));
        }
        let ghost new_styles = styles_of(strings@);
        let mut i: usize = kept;
        proof {
            assert(ups@ =~= fresh.take(kept as int) + spec_updates_from(new_styles, kept as int).take(
                0,
            ));
        }
        while i < strings.len()
            invariant
                kept <= i <= strings@.len(),
                new_styles == styles_of(strings@),
                new_styles.len() == strings@.len(),
                strings@.len() <= usize::MAX,
                fresh.take(kept as int).len() == kept,
                ups@ == fresh.take(kept as int) + spec_updates_from(new_styles, kept as int).take(
                    i - kept,
                ),
            decreases strings@.len() - i,
        {
            let prev: Style = if i == 0 {
                Style::new()
            } else {
                strings[i - 1].style
            };
            let next: Style = strings[i].style;
            let delta = prev.compute_delta(next);
            ups.push(StyleUpdate { style_delta: delta, begins_at: i });
            proof {
                assert(new_styles[i as int] == next);
                assert(prev == prev_style(new_styles, i as int));
                assert(spec_updates_from(new_styles, kept as int)[i - kept] == StyleUpdate {
                    style_delta: prev.spec_compute_delta(next),
                    begins_at: i,
                });
                assert(spec_updates_from(new_styles, kept as int).take(i + 1 - kept)
                    =~= spec_updates_from(new_styles, kept as int).take(i - kept).push(
                    spec_updates_from(new_styles, kept as int)[i - kept],
                ));
                assert(ups@ =~= fresh.take(kept as int) + spec_updates_from(
                    new_styles,
                    kept as int,
                ).take(i + 1 - kept));
            }
            i = i + 1;
        }
        let r = AnsiGenericStrings { strings, style_updates: ups };
        proof {
            assert(spec_updates_from(new_styles, kept as int).take(
                new_styles.len() - kept,
            ) =~= spec_updates_from(new_styles, kept as int));
            assert(r.style_updates@ == fresh.take(kept as int) + spec_updates_from(
                new_styles,
                kept as int,
            ));
            let ups_final = r.style_updates@;
            let n = r.strings@.len() as int;
            assert(cache_wf(fresh, orig_len as int));
            assert(fresh.len() == orig_len);
            assert forall|j: int| 0 <= j < ups_final.len() implies (
            #[trigger] ups_final[j].begins_at) as int == j by {
                if j < kept as int {
                    assert(ups_final[j] == fresh[j]);
                } else {
                    assert(ups_final[j] == spec_updates_from(new_styles, kept as int)[j
                        - kept as int]);
                }
            }
            assert(ups_final.len() == n);
            assert forall|a: int, b: int| 0 <= a < b < ups_final.len() implies (
            #[trigger] ups_final[a].begins_at) < (#[trigger] ups_final[b].begins_at) by {
                assert(ups_final[a].begins_at as int == a);
                assert(ups_final[b].begins_at as int == b);
            }
        }
        r
    }
}

/// A well-formed fragment list stays well formed when one fragment is
/// replaced by a well-formed one.
pub proof fn lemma_frags_wf_update_helper(
    fs: Seq<AnsiGenericString>,
    i: int,
    f: AnsiGenericString,
)
    requires
        frags_wf(fs),
        fragment_wf(f),
        0 <= i < fs.len(),
    ensures
        frags_wf(fs.update(i, f)),
{
    assert forall|j: int| 0 <= j < fs.update(i, f).len() implies #[trigger] fragment_wf(
        fs.update(i, f)[j],
    ) by {
        if j == i {
            assert(fs.update(i, f)[j] == f);
        } else {
            lemma_frags_wf_index(fs, j);
            assert(fs.update(i, f)[j] == fs[j]);
        }
    }
    lemma_frags_wf_from_all(fs.update(i, f));
}

impl Color {
    /// Paint `input` with this color as a foreground-only style.
    pub fn paint(self, input: Content) -> (r: AnsiGenericString)
        requires
            content_wf(input),
        ensures
            r.style == (Style {
                coloring: Coloring { fg: Some(self), bg: None },
                ..Style::spec_plain()
            }),
            r.oscontrol is None,
            fragment_wf(r),
            input matches Content::Text(t) ==> r.content == input,
            input matches Content::Strings(b) ==> r.content matches Content::Strings(b2) && (
            *b2).strings@ == (*b).strings@ && (*b2).style_updates@ == spec_rebased(
                spec_fresh_updates(*b),
                r.style,
            ),
    {
        self.as_fg().paint(input)
    }
}

} // verus!
