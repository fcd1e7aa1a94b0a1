use procr_ansi_term::{AnsiGenericString, AnsiStrings, Color, Content, Style};

fn green() -> Color {
    Color::Green
}

#[test]
fn no_control_codes_for_plain() {
    let one = Style::default().paint(Content::text("one"));
    let two = Style::default().paint(Content::text("two"));
    let output = AnsiStrings(vec![one, two]).write_to_any();
    assert_eq!(output, "onetwo");
}

#[test]
fn title_solo() {
    let unstyled = AnsiGenericString::title("hello");

    let joined = AnsiStrings(vec![unstyled]).write_to_any();
    let expected = "\x1B]2;hello\x1B\\";
    assert_eq!(joined, expected);
}

#[test]
fn title_pre_plain() {
    let unstyled = AnsiGenericString::title("hello");
    let after = Style::default().paint(Content::text(" After is Plain."));

    // does not introduce spurious SGR codes (reset or otherwise) adjacent
    // to plain strings
    let expected = format!("{}{}", unstyled.write_to_any(), after.write_to_any());
    let joined = AnsiStrings(vec![
        AnsiGenericString::title("hello"),
        Style::default().paint(Content::text(" After is Plain.")),
    ])
    .write_to_any();
    assert_eq!(joined, expected);
}

#[test]
fn title_post_plain() {
    let unstyled = AnsiGenericString::title("hello");
    let before = Style::default().paint(Content::text("Before is Plain. "));

    // does not introduce spurious SGR codes (reset or otherwise) adjacent
    // to plain strings
    let expected = format!("{}{}", before.write_to_any(), unstyled.write_to_any());
    let joined = AnsiStrings(vec![
        Style::default().paint(Content::text("Before is Plain. ")),
        AnsiGenericString::title("hello"),
    ])
    .write_to_any();
    assert_eq!(joined, expected);
}

#[test]
fn title_middle_plain() {
    let unstyled = AnsiGenericString::title("hello");
    let after = Style::default().paint(Content::text(" After is Plain."));
    let before = Style::default().paint(Content::text("Before is Plain. "));

    // does not introduce spurious SGR codes (reset or otherwise) adjacent
    // to plain strings
    let expected = format!(
        "{}{}{}",
        before.write_to_any(),
        unstyled.write_to_any(),
        after.write_to_any()
    );
    let joined = AnsiStrings(vec![
        Style::default().paint(Content::text("Before is Plain. ")),
        AnsiGenericString::title("hello"),
        Style::default().paint(Content::text(" After is Plain.")),
    ])
    .write_to_any();
    assert_eq!(joined, expected);
}

#[test]
fn title_pre_styled() {
    let unstyled = AnsiGenericString::title("hello");
    let after_g = green().paint(Content::text(" After is Green."));

    // Check that RESET does not follow unstyled
    let expected = format!(
        "{}{}",
        unstyled.write_to_any(),
        format!(
            "{}{}{}",
            after_g.style_ref().prefix(),
            " After is Green.",
            after_g.style_ref().suffix()
        )
    );
    let joined = AnsiStrings(vec![
        AnsiGenericString::title("hello"),
        green().paint(Content::text(" After is Green.")),
    ])
    .write_to_any();
    assert_eq!(joined, expected);
}

#[test]
fn title_post_styled() {
    let unstyled = AnsiGenericString::title("hello");
    let before_g = green().paint(Content::text("Before is Green."));

    // Check that reset precedes unstyled, but does not follow it
    let expected = format!(
        "{}{}",
        format!(
            "{}{}{}",
            before_g.style_ref().prefix(),
            "Before is Green.",
            before_g.style_ref().suffix()
        ),
        unstyled.write_to_any()
    );
    let joined = AnsiStrings(vec![
        green().paint(Content::text("Before is Green.")),
        AnsiGenericString::title("hello"),
    ])
    .write_to_any();
    assert_eq!(joined, expected);
}

#[test]
fn title_middle_styled() {
    let unstyled = AnsiGenericString::title("hello");
    let before_g = green().paint(Content::text("Before is Green."));
    let after_g = green().paint(Content::text(" After is Green."));

    let expected = format!(
        "{}{}{}",
        format!(
            "{}{}{}",
            before_g.style_ref().prefix(),
            "Before is Green.",
            before_g.style_ref().suffix()
        ),
        unstyled.write_to_any(),
        format!(
            "{}{}{}",
            after_g.style_ref().prefix(),
            " After is Green.",
            after_g.style_ref().suffix()
        )
    );
    let joined = AnsiStrings(vec![
        green().paint(Content::text("Before is Green.")),
        AnsiGenericString::title("hello"),
        green().paint(Content::text(" After is Green.")),
    ])
    .write_to_any();
    assert_eq!(joined, expected);
}

#[test]
fn hyperlink() {
    let styled = Color::Red
        .paint(Content::text("Link to example.com."))
        .hyperlink_content(Content::text("https://example.com"));
    assert_eq!(
        styled.write_to_any(),
        "\x1B[31m\x1B]8;;https://example.com\x1B\\Link to example.com.\x1B]8;;\x1B\\\x1B[0m"
    );
}

#[test]
fn hperlinks_link_only() {
    let link = Color::Blue
        .underline()
        .paint(Content::text("Link to example.com."))
        .hyperlink_content(Content::text("https://example.com"));
    println!("link: {:?}", link.style_ref());
    // Assemble with link by itself
    let joined = AnsiStrings(vec![link]).write_to_any();
    assert_eq!(joined, format!("\x1B[4;34m\x1B]8;;https://example.com\x1B\\Link to example.com.\x1B]8;;\x1B\\\x1B[0m"));
}

#[test]
fn hyperlinks_link_first() {
    let link = Color::Blue
        .underline()
        .paint(Content::text("Link to example.com."))
        .hyperlink_content(Content::text("https://example.com"));
    println!("link: {:?}", link.style_ref());
    let after = green().paint(Content::text(" After link."));
    // Assemble with link first
    let joined = AnsiStrings(vec![link, after]).write_to_any();
    assert_eq!(joined, format!("\x1B[4;34m\x1B]8;;https://example.com\x1B\\Link to example.com.\x1B]8;;\x1B\\\x1B[0m\x1B[32m After link.\x1B[0m"));
}

#[test]
fn hyperlinks_link_last() {
    let before = green().paint(Content::text("Before link. "));
    let link = Color::Blue
        .underline()
        .paint(Content::text("Link to example.com."))
        .hyperlink_content(Content::text("https://example.com"));
    println!("link: {:?}", link.style_ref());
    // Assemble with link at the end
    let joined = AnsiStrings(vec![before, link]).write_to_any();
    assert_eq!(joined, format!("\x1B[32mBefore link. \x1B[4;34m\x1B]8;;https://example.com\x1B\\Link to example.com.\x1B]8;;\x1B\\\x1B[0m"));
}

#[test]
fn hyperlinks_link_in_middle() {
    let before = green().paint(Content::text("Before link. "));
    let link = Color::Blue
        .underline()
        .paint(Content::text("Link to example.com."))
        .hyperlink_content(Content::text("https://example.com"));
    println!("link: {:?}", link.style_ref());
    let after = green().paint(Content::text(" After link."));
    // Assemble with link in the middle
    let joined = AnsiStrings(vec![before, link, after]).write_to_any();
    assert_eq!(joined, format!("\x1B[32mBefore link. \x1B[4;34m\x1B]8;;https://example.com\x1B\\Link to example.com.\x1B]8;;\x1B\\\x1B[0m\x1B[32m After link.\x1B[0m"));
}
