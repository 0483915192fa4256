use mosaic::geometry::SplitDirection;
use mosaic::layout::{Layout, PaneSettings};
use mosaic::numbers::{read_number, write_number};

fn pane(selectable: bool, invisible_borders: bool, max_height: Option<usize>) -> Layout {
    Layout::Pane(PaneSettings { selectable, max_height, invisible_borders })
}

fn split(direction: SplitDirection, ratio: u16, first: Layout, second: Layout) -> Layout {
    Layout::Split { direction, ratio, first: Box::new(first), second: Box::new(second) }
}

fn parse(text: &str) -> Option<Layout> {
    Layout::parse(&text.as_bytes().to_vec())
}

fn text_of(layout: &Layout) -> String {
    String::from_utf8(layout.serialize()).unwrap()
}

#[test]
fn a_layout_is_read_from_its_text() {
    assert_eq!(parse("p"), Some(Layout::single()));
    assert_eq!(parse("p!"), Some(pane(false, false, None)));
    assert_eq!(parse("p_"), Some(pane(true, true, None)));
    assert_eq!(parse("p^3"), Some(pane(true, false, Some(3))));
    assert_eq!(parse("p!_^0"), Some(pane(false, true, Some(0))));
    assert_eq!(
        parse("v500(p,h300(p,p!_^1))"),
        Some(split(
            SplitDirection::Vertical,
            500,
            pane(true, false, None),
            split(
                SplitDirection::Horizontal,
                300,
                pane(true, false, None),
                pane(false, true, Some(1))
            )
        ))
    );
    assert_eq!(
        parse("h0(p,p)"),
        Some(split(SplitDirection::Horizontal, 0, Layout::single(), Layout::single()))
    );
    assert_eq!(
        parse("v1000(p,p)"),
        Some(split(SplitDirection::Vertical, 1000, Layout::single(), Layout::single()))
    );
}

#[test]
fn blanks_and_line_ends_count_for_nothing() {
    let spaced = parse(" v 500 (\n\tp ,\r\n\th 3 0 0 ( p , p ! _ ^ 1 )\n)\n");
    assert_eq!(spaced, parse("v500(p,h300(p,p!_^1))"));
    assert!(spaced.is_some());
    assert_eq!(text_of(&spaced.unwrap()), "v500(p,h300(p,p!_^1))");
}

#[test]
fn what_is_no_layout_is_not_read() {
    for text in [
        "",
        " ",
        "q",
        "P",
        "pp",
        "p,",
        "p)",
        "p_!",
        "p!!",
        "p^",
        "p^x",
        "p^01",
        "p^1_",
        "p^99999999999999999999999999",
        "v(p,p)",
        "v500",
        "v500(",
        "v500(p",
        "v500(p,",
        "v500(p,p",
        "v500(p p)",
        "v500(p,p))",
        "v500(p,p,p)",
        "v500p,p)",
        "v1001(p,p)",
        "v0500(p,p)",
        "v-5(p,p)",
        "x500(p,p)",
        "v500(,p)",
        "v500(p,)",
        "v500[p,p]",
        "p#",
    ] {
        assert_eq!(parse(text), None, "{}", text);
    }
}

#[test]
fn a_layout_is_written_as_it_is_read() {
    let layouts = vec![
        Layout::single(),
        pane(false, false, None),
        pane(true, true, Some(12345)),
        pane(false, true, Some(usize::MAX)),
        split(SplitDirection::Horizontal, 7, pane(true, true, Some(1)), Layout::single()),
        split(
            SplitDirection::Vertical,
            999,
            split(SplitDirection::Horizontal, 10, Layout::single(), pane(false, false, Some(2))),
            split(SplitDirection::Vertical, 1000, pane(true, true, None), Layout::single()),
        ),
    ];
    let texts = [
        "p",
        "p!",
        "p_^12345",
        &format!("p!_^{}", usize::MAX),
        "h7(p_^1,p)",
        "v999(h10(p,p!^2),v1000(p_,p))",
    ];
    for (layout, text) in layouts.iter().zip(texts) {
        assert_eq!(text_of(layout), text);
        assert_eq!(parse(text).as_ref(), Some(layout));
        assert_eq!(Layout::parse(&layout.serialize()).as_ref(), Some(layout));
    }
    let mut out = b"# ".to_vec();
    layouts[4].write_to(&mut out);
    assert_eq!(out, b"# h7(p_^1,p)".to_vec());
}

#[test]
fn a_layout_that_is_not_well_formed_is_written_and_not_read() {
    let bad = split(SplitDirection::Vertical, 1001, Layout::single(), Layout::single());
    assert!(!bad.is_valid());
    assert_eq!(text_of(&bad), "v1001(p,p)");
    assert_eq!(Layout::parse(&bad.serialize()), None);
}

#[test]
fn numbers_are_read_as_they_are_written() {
    let text = b"x0,12 007 65535 65536".to_vec();
    assert_eq!(read_number(&text, 0, 100), None);
    assert_eq!(read_number(&text, 1, 100), Some((0, 2)));
    assert_eq!(read_number(&text, 1, 0), Some((0, 2)));
    assert_eq!(read_number(&text, 2, 100), None);
    assert_eq!(read_number(&text, 3, 100), Some((12, 5)));
    assert_eq!(read_number(&text, 3, 12), Some((12, 5)));
    assert_eq!(read_number(&text, 3, 11), None);
    assert_eq!(read_number(&text, 4, 100), Some((2, 5)));
    assert_eq!(read_number(&text, 6, 100), None);
    assert_eq!(read_number(&text, 7, 100), None);
    assert_eq!(read_number(&text, 8, 100), Some((7, 9)));
    assert_eq!(read_number(&text, 10, 65535), Some((65535, 15)));
    assert_eq!(read_number(&text, 16, 65535), None);
    assert_eq!(read_number(&text, 16, usize::MAX), Some((65536, 21)));
    assert_eq!(read_number(&text, 21, 9), None);
    assert_eq!(read_number(&text, 99, 9), None);
    let big = usize::MAX.to_string().into_bytes();
    assert_eq!(read_number(&big, 0, usize::MAX), Some((usize::MAX, big.len())));
    let mut bigger = big.clone();
    bigger.push(b'0');
    assert_eq!(read_number(&bigger, 0, usize::MAX), None);

    for value in [0usize, 7, 10, 99, 100, 1000, 65535, usize::MAX] {
        let mut out = Vec::new();
        write_number(&mut out, value);
        assert_eq!(out, value.to_string().into_bytes());
        assert_eq!(read_number(&out, 0, usize::MAX), Some((value, out.len())));
    }
}
