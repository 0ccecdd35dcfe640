use codesnap::style::{ComponentStyle, Margin, RawComponentStyle, Size, Style};

#[test]
fn default_margin_is_zero_at_every_edge() {
    assert_eq!(Margin::default(), Margin { top: 0, right: 0, bottom: 0, left: 0 });
}

#[test]
fn default_styles_ask_for_and_give_nothing() {
    assert_eq!(
        RawComponentStyle::default(),
        Style { width: Size::Num(0), height: Size::Num(0), margin: Margin::default() }
    );
    assert_eq!(
        ComponentStyle::default(),
        Style { width: 0, height: 0, margin: Margin::default() }
    );
}

#[test]
fn size_and_margin_replace_their_part_only() {
    let margin = Margin { top: 1, right: 2, bottom: 3, left: 4 };
    let style = RawComponentStyle::default().margin(margin).size(Size::Num(7), Size::Percent(50));
    assert_eq!(style, Style { width: Size::Num(7), height: Size::Percent(50), margin });
    let style = style.margin(Margin::default());
    assert_eq!(
        style,
        Style { width: Size::Num(7), height: Size::Percent(50), margin: Margin::default() }
    );
}

#[test]
fn absolute_size_ignores_the_parent() {
    assert_eq!(Size::Num(1234).resolve(0), 1234);
    assert_eq!(Size::Num(1234).resolve(99999), 1234);
}

#[test]
fn percentage_is_taken_of_the_parent() {
    assert_eq!(Size::Percent(50).resolve(30000), 15000);
    assert_eq!(Size::Percent(100).resolve(30000), 30000);
    assert_eq!(Size::Percent(33).resolve(1000), 330);
    assert_eq!(Size::Percent(33).resolve(10), 3);
    assert_eq!(Size::Percent(50).resolve(0), 0);
    assert_eq!(Size::Percent(200).resolve(u64::MAX), u64::MAX);
}

#[test]
fn style_resolves_each_axis_against_the_same_axis_of_the_parent() {
    let margin = Margin { top: 1, right: 2, bottom: 3, left: 4 };
    let raw = Style { width: Size::Percent(50), height: Size::Percent(10), margin };
    let parent = Style { width: 40000, height: 9000, margin: Margin { top: 9, right: 9, bottom: 9, left: 9 } };
    assert_eq!(raw.resolve(parent), Style { width: 20000, height: 900, margin });
    let raw = Style { width: Size::Num(5), height: Size::Percent(100), margin };
    assert_eq!(raw.resolve(parent), Style { width: 5, height: 9000, margin });
}
