use col_rs::{Span, Style, Weight};

fn span(text: &str) -> Span {
    Span::new(text.to_string())
}

#[test]
fn plain_span_renders_empty_parameters() {
    assert_eq!(span("hello").render(), "\x1b[mhello\x1b[0m");
    assert_eq!(span("").render(), "\x1b[m\x1b[0m");
}

#[test]
fn red_on_blue() {
    let s = span("Red on Blue").fg(255, 0, 0).bg(0, 0, 255);
    assert_eq!(
        s.render(),
        "\x1b[38;2;255;0;0;48;2;0;0;255mRed on Blue\x1b[0m"
    );
}

#[test]
fn bold_underline_order_is_fixed() {
    let a = span("x").weight(Weight::Bold).underline();
    let b = span("x").underline().weight(Weight::Bold);
    assert_eq!(a.render(), "\x1b[1;4mx\x1b[0m");
    assert_eq!(b.render(), "\x1b[1;4mx\x1b[0m");
}

#[test]
fn every_attribute_in_order() {
    let s = span("all")
        .italic()
        .strike_through()
        .underline()
        .weight(Weight::Faint)
        .bg(1, 22, 133)
        .fg(9, 10, 100);
    assert_eq!(
        s.render(),
        "\x1b[38;2;9;10;100;48;2;1;22;133;2;4;9;3mall\x1b[0m"
    );
}

#[test]
fn single_decorations() {
    assert_eq!(span("i").italic().render(), "\x1b[3mi\x1b[0m");
    assert_eq!(span("s").strike_through().render(), "\x1b[9ms\x1b[0m");
    assert_eq!(span("u").underline().render(), "\x1b[4mu\x1b[0m");
    assert_eq!(span("f").weight(Weight::Faint).render(), "\x1b[2mf\x1b[0m");
    assert_eq!(span("n").weight(Weight::Normal).render(), "\x1b[mn\x1b[0m");
}

#[test]
fn black_is_a_colour_not_an_absence() {
    assert_eq!(span("k").fg(0, 0, 0).render(), "\x1b[38;2;0;0;0mk\x1b[0m");
    assert_eq!(span("k").bg(0, 0, 0).render(), "\x1b[48;2;0;0;0mk\x1b[0m");
}

#[test]
fn text_is_copied_unchanged() {
    let t = "a;b\x1b[31m é";
    assert_eq!(span(t).render(), format!("\x1b[m{}\x1b[0m", t));
}

#[test]
fn last_weight_wins() {
    let s = span("w").weight(Weight::Bold).weight(Weight::Faint);
    assert_eq!(s.render(), "\x1b[2mw\x1b[0m");
}

#[test]
fn span_reset_matches_fresh_default() {
    let mut s = span("gone").fg(1, 2, 3).bg(4, 5, 6).weight(Weight::Bold).italic();
    s.reset();
    assert_eq!(s.render(), Span::default().render());
    assert_eq!(s.render(), span("").render());
    assert_eq!(*s.get_fg(), None);
    assert_eq!(*s.get_bg(), None);
}

#[test]
fn style_reset_matches_fresh_default() {
    let mut st = Style::default().fg(1, 2, 3).underline().strike_through();
    st.reset();
    let a = Span::with_style("t".to_string(), st);
    let b = Span::with_style("t".to_string(), Style::default());
    assert_eq!(a.render(), b.render());
    assert_eq!(a.render(), "\x1b[mt\x1b[0m");
}

#[test]
fn reset_fg_is_idempotent() {
    let mut st = Style::default();
    st.reset_fg();
    assert_eq!(*st.get_fg(), None);
    st.reset_fg();
    assert_eq!(*st.get_fg(), None);

    let mut s = span("x").fg(7, 8, 9);
    s.reset_fg();
    assert_eq!(*s.get_fg(), None);
    s.reset_fg();
    assert_eq!(*s.get_fg(), None);
}

#[test]
fn setters_and_getters_agree() {
    let mut st = Style::default();
    st.set_fg(10, 20, 30);
    st.set_bg(40, 50, 60);
    assert_eq!(*st.get_fg(), Some([10, 20, 30]));
    assert_eq!(*st.get_bg(), Some([40, 50, 60]));
    st.reset_bg();
    assert_eq!(*st.get_bg(), None);
    assert_eq!(*st.get_fg(), Some([10, 20, 30]));

    let mut s = span("x");
    s.set_fg(1, 1, 1);
    s.set_bg(2, 2, 2);
    assert_eq!(*s.get_fg(), Some([1, 1, 1]));
    assert_eq!(*s.get_bg(), Some([2, 2, 2]));
    s.reset_bg();
    assert_eq!(*s.get_bg(), None);
}

#[test]
fn fluent_and_in_place_agree() {
    let fluent = Style::default().fg(3, 4, 5).bg(6, 7, 8);
    let mut in_place = Style::default();
    in_place.set_fg(3, 4, 5);
    in_place.set_bg(6, 7, 8);
    let a = Span::with_style("z".to_string(), fluent);
    let b = Span::with_style("z".to_string(), in_place);
    assert_eq!(a.render(), b.render());
}

#[test]
fn add_style_replaces_style_keeps_text() {
    let mut s = span("keep").fg(1, 2, 3);
    s.add_style(Style::default().weight(Weight::Bold));
    assert_eq!(s.render(), "\x1b[1mkeep\x1b[0m");
}

#[test]
fn default_weight_is_normal() {
    assert_eq!(Weight::default(), Weight::Normal);
}
