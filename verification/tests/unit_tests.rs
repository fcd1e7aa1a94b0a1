use procr_ansi_term::debug::debug_style_to_string;
use procr_ansi_term::{
    build_all_gradient_text, build_gradient_text, AnsiGenericString, AnsiGenericStrings,
    AnsiStrings, Color, Content, DebugDiff, DebugStylePaint, FgColor, Gradient, Rgb, Style,
    StyleDelta, StyleIter, StyleUpdate, TargetGround,
};

#[test]
fn single_plain_fragment_renders_its_content_only() {
    let output = AnsiStrings(vec![Style::default().paint(Content::text("just text"))])
        .write_to_any();
    assert_eq!(output, "just text");
    assert!(!output.contains('\x1B'));
}

#[test]
fn uniform_style_emits_one_prefix_and_one_reset() {
    let strings = AnsiStrings(vec![
        Color::Red.paint(Content::text("a")),
        Color::Red.paint(Content::text("b")),
        Color::Red.paint(Content::text("c")),
    ]);
    assert_eq!(strings.write_to_any(), "\x1B[31mabc\x1B[0m");
}

#[test]
fn no_trailing_reset_after_plain_tail() {
    let strings = AnsiStrings(vec![
        Color::Green.paint(Content::text("x")),
        Style::default().paint(Content::text("y")),
    ]);
    // The transition back to plain is a bare reset, and nothing follows "y".
    assert_eq!(strings.write_to_any(), "\x1B[32mx\x1B[0my");
}

#[test]
fn style_change_without_reset_when_next_covers_previous() {
    // Green (fg only) to Blue+underline: the new codes override everything
    // the old style set, so no reset is emitted in between.
    let strings = AnsiStrings(vec![
        Color::Green.paint(Content::text("a")),
        Color::Blue.underline().paint(Content::text("b")),
    ]);
    assert_eq!(strings.write_to_any(), "\x1B[32ma\x1B[4;34mb\x1B[0m");
}

#[test]
fn style_change_with_reset_when_attribute_must_go() {
    // Blue+underline to Green: underline must be cleared, so a reset
    // precedes the new codes.
    let strings = AnsiStrings(vec![
        Color::Blue.underline().paint(Content::text("a")),
        Color::Green.paint(Content::text("b")),
    ]);
    assert_eq!(strings.write_to_any(), "\x1B[4;34ma\x1B[0m\x1B[32mb\x1B[0m");
}

#[test]
fn prefix_code_formats() {
    assert_eq!(Color::Fixed(134).as_fg().prefix(), "\x1B[38;5;134m");
    assert_eq!(Color::Rgb(70, 130, 180).as_fg().prefix(), "\x1B[38;2;70;130;180m");
    assert_eq!(Color::Fixed(7).as_bg().prefix(), "\x1B[48;5;7m");
    assert_eq!(Color::Default.as_fg().prefix(), "\x1B[39m");
    assert_eq!(Color::White.as_bg().prefix(), "\x1B[47m");
    assert_eq!(Color::LightGray.as_fg().prefix(), "\x1B[97m");
    let everything = Color::Red
        .on(Color::Blue)
        .bold()
        .dimmed()
        .italic()
        .underline()
        .blink()
        .reverse()
        .hidden()
        .strikethrough();
    assert_eq!(everything.prefix(), "\x1B[1;2;3;4;5;7;8;9;31;44m");
    assert_eq!(everything.suffix(), "\x1B[0m");
    assert_eq!(Style::new().prefix(), "");
    assert_eq!(Style::new().suffix(), "");
}

#[test]
fn legacy_underline_code_is_zero_padded() {
    let st = Style::new().underline();
    assert_eq!(st.prefix_with(true), "\x1B[04m");
    assert_eq!(st.prefix_with(false), "\x1B[4m");
}

#[test]
fn rebase_merges_attributes_and_inherits_colors() {
    let child = Style::new().bold();
    let parent = Style::new().italic().fg(Color::Red);
    let merged = child.rebase_on(parent);
    assert!(merged.formats.bold);
    assert!(merged.formats.italic);
    assert_eq!(merged.coloring.fg, Some(Color::Red));
    assert_eq!(merged.coloring.bg, None);
    assert_eq!(merged.prefix(), "\x1B[1;3;31m");
}

#[test]
fn rebase_keeps_explicit_child_colors() {
    let child = Style::new().fg(Color::Blue);
    let parent = Color::Red.on(Color::Yellow);
    let merged = child.rebase_on(parent);
    assert_eq!(merged.coloring.fg, Some(Color::Blue));
    assert_eq!(merged.coloring.bg, Some(Color::Yellow));
}

#[test]
fn update_strings_keeps_cached_prefix_before_smallest_edit() {
    let strings = AnsiStrings(vec![
        Color::Red.paint(Content::text("a")),
        Color::Green.paint(Content::text("b")),
        Color::Blue.paint(Content::text("c")),
        Style::default().paint(Content::text("d")),
    ]);
    let before: Vec<StyleUpdate> = strings.style_updates.clone();
    let edited = strings.update_strings(vec![(2, Color::Yellow.paint(Content::text("C")))]);
    // Everything before index 2 is byte-identical to the pre-edit cache.
    assert_eq!(&edited.style_updates[..2], &before[..2]);
    assert_eq!(edited.style_updates.len(), 4);
    assert_eq!(edited.write_to_any(), "\x1B[31ma\x1B[32mb\x1B[33mC\x1B[0md");
}

#[test]
fn update_strings_appends_past_the_end() {
    let strings = AnsiStrings(vec![Color::Red.paint(Content::text("a"))]);
    let before: Vec<StyleUpdate> = strings.style_updates.clone();
    let edited = strings.update_strings(vec![
        (7, Color::Red.paint(Content::text("b"))),
        (3, Color::Red.paint(Content::text("c"))),
    ]);
    // Appends land in index order: 3 before 7.
    assert_eq!(&edited.style_updates[..1], &before[..1]);
    assert_eq!(edited.write_to_any(), "\x1B[31macb\x1B[0m");
}

#[test]
fn update_strings_with_no_edits_is_identity() {
    let strings = AnsiStrings(vec![Color::Red.paint(Content::text("a"))]);
    let rendered = strings.write_to_any();
    let same = strings.update_strings(vec![]);
    assert_eq!(same.write_to_any(), rendered);
}

#[test]
fn update_strings_replaces_in_input_order_on_equal_indices() {
    let strings = AnsiStrings(vec![Style::default().paint(Content::text("a"))]);
    let edited = strings.update_strings(vec![
        (0, Style::default().paint(Content::text("first"))),
        (0, Style::default().paint(Content::text("second"))),
    ]);
    assert_eq!(edited.write_to_any(), "second");
}

#[test]
fn style_iter_decodes_sparse_runs() {
    let mut it = StyleIter::new(vec![
        StyleUpdate {
            style_delta: StyleDelta::ExtraStyles(Color::Red.as_fg()),
            begins_at: 0,
        },
        StyleUpdate {
            style_delta: StyleDelta::ExtraStyles(Color::Blue.as_fg()),
            begins_at: 2,
        },
    ]);
    let red = StyleDelta::ExtraStyles(Color::Red.as_fg());
    let blue = StyleDelta::ExtraStyles(Color::Blue.as_fg());
    assert_eq!(it.next(), Some(red));
    assert_eq!(it.next(), Some(red));
    assert_eq!(it.next(), Some(blue));
    assert_eq!(it.next(), Some(blue));
}

#[test]
fn style_iter_on_empty_instructions_yields_nothing() {
    let mut it = StyleIter::new(vec![]);
    assert_eq!(it.next(), None);
    assert_eq!(it.next(), None);
}

#[test]
fn empty_cache_renders_without_styling() {
    // A sequence built directly over fragments leaves the transition list
    // to be computed on first read; rendering it as-is emits no codes.
    let seq = AnsiGenericStrings::new(vec![Color::Red.paint(Content::text("raw"))]);
    assert_eq!(seq.write_to_any(), "raw");
}

#[test]
fn nested_sequence_renders_inline_with_rebase() {
    let inner = AnsiStrings(vec![Style::new().bold().paint(Content::text("deep"))]);
    let outer = Color::Red.paint(Content::nested(inner));
    let rendered = AnsiStrings(vec![outer]).write_to_any();
    // The outer prefix paints red; the nested sequence then renders with
    // its own transitions, including its own trailing reset, and the outer
    // sequence closes with a reset of its own.
    assert_eq!(rendered, "\x1B[31m\x1B[1mdeep\x1B[0m\x1B[0m");
}

#[test]
fn nested_resetting_transition_is_rebased_onto_parent() {
    // Inside the nested sequence, bold -> italic drops bold, so its cached
    // transition resets and re-applies; after rebasing onto red, the
    // re-applied style carries the ambient red foreground along with the
    // italic the child asked for.
    let inner = AnsiStrings(vec![
        Style::new().bold().paint(Content::text("a")),
        Style::new().italic().paint(Content::text("b")),
    ]);
    let outer = Color::Red.paint(Content::nested(inner));
    let rendered = AnsiStrings(vec![outer]).write_to_any();
    assert_eq!(rendered, "\x1B[31m\x1B[1ma\x1B[0m\x1B[3;31mb\x1B[0m\x1B[0m");
}

#[test]
fn byte_rendering_matches_text_rendering() {
    let frag = Color::Green.paint(Content::text("user data"));
    let text = frag.write_to_any();
    assert_eq!(frag.write_to(), text.as_bytes().to_vec());
    let seq = AnsiStrings(vec![
        Color::Green.paint(Content::text("one ")),
        Color::Green.bold().paint(Content::text("two")),
    ]);
    let text = seq.write_to_any();
    assert_eq!(seq.write_to(), text.as_bytes().to_vec());
}

#[test]
fn push_extends_the_cache_incrementally() {
    let mut seq = AnsiStrings(vec![Color::Red.paint(Content::text("a"))]);
    seq.push(Color::Red.paint(Content::text("b")));
    assert_eq!(seq.style_updates.len(), 2);
    assert_eq!(seq.style_updates[1].style_delta, StyleDelta::Empty);
    assert_eq!(seq.write_to_any(), "\x1B[31mab\x1B[0m");
}

#[test]
fn fragment_accessors() {
    let mut frag = Color::Red
        .paint(Content::text("x"))
        .hyperlink("https://example.com");
    match frag.url_string() {
        Some(Content::Text(url)) => assert_eq!(url, "https://example.com"),
        _ => panic!("expected a text url"),
    }
    assert_eq!(frag.style_ref().coloring.fg, Some(Color::Red));
    *frag.style_ref_mut() = Style::new();
    assert_eq!(frag.write_to_any(), "\x1B]8;;https://example.com\x1B\\x\x1B]8;;\x1B\\");
    let plain = AnsiGenericString::title_content(Content::text("t"));
    assert!(plain.url_string().is_none());
    assert!(matches!(plain.content(), Content::Text(_)));
    assert!(plain.oscontrol().is_some());
}

#[test]
fn gradient_text_wraps_each_character() {
    let colors = vec![Rgb { r: 0, g: 0, b: 0 }, Rgb { r: 255, g: 255, b: 255 }];
    let out = build_gradient_text("ab", &colors, TargetGround::Foreground);
    assert_eq!(out, "\x1B[38;2;0;0;0ma\x1B[38;2;255;255;255mb\x1B[0m");
}

#[test]
fn all_gradient_text_wraps_both_grounds() {
    let fg = vec![Rgb { r: 1, g: 2, b: 3 }];
    let bg = vec![Rgb { r: 4, g: 5, b: 6 }];
    let out = build_all_gradient_text("z", &fg, &bg);
    assert_eq!(out, "\x1B[38;2;1;2;3;48;2;4;5;6mz\x1B[0m");
}

#[test]
fn gradient_value_operations() {
    let g = Gradient::from_color_rgb(Color::Rgb(1, 2, 3), Color::Red);
    assert_eq!(g.start, Rgb { r: 1, g: 2, b: 3 });
    assert_eq!(g.end, Rgb { r: 0, g: 0, b: 0 });
    let r = g.reverse();
    assert_eq!(r.start, g.end);
    assert_eq!(r.end, g.start);
    assert_eq!(TargetGround::Foreground.code(), 30);
    assert_eq!(TargetGround::Background.code(), 40);
    assert_eq!(Gradient::new(g.start, g.end), g);
}

#[test]
fn style_debug_text_lists_flags_and_colors() {
    let st = Color::Red.on(Color::Blue).bold().italic();
    assert_eq!(
        debug_style_to_string(st.formats, st.coloring.fg, st.coloring.bg),
        "Style { bold, italic, foreground(Red), background(Blue) }"
    );
    let only_fg = Color::Red.as_fg();
    assert_eq!(
        debug_style_to_string(only_fg.formats, only_fg.coloring.fg, only_fg.coloring.bg),
        "Style { foreground(Red) }"
    );
}

#[test]
fn debug_diff_reports_missing_flags() {
    let a = Style::new().bold().formats;
    let b = Style::new().bold().italic().formats;
    assert_eq!(a.debug_diff(&b), "FormatFlags((outcome) bold (missing: [italic]) <~> (missing: []) bold, italic (expected))");
    assert_eq!(b.debug_diff(&b), "bold, italic (no diff)");
}

#[test]
fn debug_diff_on_colors_and_options() {
    assert_eq!(Color::Red.debug_diff(&Color::Red), "Red (no diff)");
    assert_eq!(
        Color::Rgb(3, 2, 4).debug_diff(&Color::Fixed(9)),
        "Color((outcome) Rgb(3, 2, 4) != Fixed(9) (expected))"
    );
    let some: Option<Color> = Some(Color::Red);
    let none: Option<Color> = None;
    assert_eq!(none.debug_diff(&none), "None (no diff)");
    assert_eq!(none.debug_diff(&some), "(outcome) None != Red (expected)");
    assert_eq!(some.debug_diff(&none), "(outcome) Red != None (expected)");
    assert_eq!(some.debug_diff(&some), "Option<Red (no diff)>");
}

#[test]
fn debug_style_paint_resolves_styles() {
    let frag = FgColor(Color::Green).style_input(Content::text("go"));
    assert_eq!(frag.write_to_any(), "\x1B[32mgo\x1B[0m");
    let styled = Style::new().bold().style_input(Content::text("b"));
    assert_eq!(styled.write_to_any(), "\x1B[1mb\x1B[0m");
}

#[test]
fn write_iter_yields_deltas_with_contents() {
    let strings = AnsiStrings(vec![
        Color::Red.paint(Content::text("a")),
        Color::Red.paint(Content::text("b")),
    ]);
    let mut it = strings.write_iter();
    let (d0, c0, o0) = it.next().expect("first fragment");
    assert_eq!(d0, StyleDelta::ExtraStyles(Color::Red.as_fg()));
    assert!(matches!(c0, Content::Text(t) if t == "a"));
    assert!(o0.is_none());
    let (d1, c1, _) = it.next().expect("second fragment");
    assert_eq!(d1, StyleDelta::Empty);
    assert!(matches!(c1, Content::Text(t) if t == "b"));
    assert!(it.next().is_none());
}
