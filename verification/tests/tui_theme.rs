use tchat::tui::theme::{
    active, bold, border, connection, dim, mode_badge, muted, prompt, reaction, section_header,
    space_selected, status_bar, text, unread, Color, Style,
};

#[test]
fn text_style() {
    let s = text();
    assert_eq!(s.fg, Some(Color::White));
}

#[test]
fn dim_style() {
    let s = dim();
    assert_eq!(s.fg, Some(Color::DarkGray));
}

#[test]
fn bold_style() {
    let s = bold();
    assert_eq!(s.fg, Some(Color::White));
    assert!(s.bold);
}

#[test]
fn active_style() {
    let s = active();
    assert_eq!(s.fg, Some(Color::Cyan));
    assert!(s.bold);
}

#[test]
fn unread_style() {
    let s = unread();
    assert_eq!(s.fg, Some(Color::Yellow));
    assert!(s.bold);
}

#[test]
fn mode_badge_insert() {
    let s = mode_badge("INSERT");
    assert_eq!(s.fg, Some(Color::Black));
    assert_eq!(s.bg, Some(Color::Cyan));
    assert!(s.bold);
}

#[test]
fn mode_badge_normal() {
    let s = mode_badge("NORMAL");
    assert_eq!(s.fg, Some(Color::DarkGray));
    assert!(s.bold);
}

#[test]
fn connection_styles() {
    let s = connection(true);
    assert_eq!(s.fg, Some(Color::Green));

    let s = connection(false);
    assert_eq!(s.fg, Some(Color::Red));
}

#[test]
fn prompt_style() {
    let s = prompt();
    assert_eq!(s.fg, Some(Color::Cyan));
    assert!(s.bold);
}

#[test]
fn border_style() {
    let s = border();
    assert_eq!(s.fg, Some(Color::DarkGray));
}

#[test]
fn quiet_styles() {
    assert_eq!(muted(), Style { fg: Some(Color::Gray), bg: None, bold: false });
    assert_eq!(reaction(), muted());
    assert_eq!(section_header(), Style { fg: Some(Color::DarkGray), bg: None, bold: true });
    assert_eq!(space_selected(), active());
    assert_eq!(
        status_bar(),
        Style { fg: Some(Color::Gray), bg: Some(Color::Black), bold: false }
    );
}
