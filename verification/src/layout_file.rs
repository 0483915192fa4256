//! Layouts as files hold them.
//!
//! A pane is written `p`, followed by `!` if the focus may not rest on it,
//! by `_` if it is drawn without a frame, and by `^` and a number if it asks
//! for no more than so many rows. A split is written `h` or `v`, for panes
//! one above the other or side by side, followed by the thousandths that
//! the first part takes and, in brackets with a comma between them, the two
//! parts: `v500(p,h300(p,p!_^1))`. Blanks, tabs and line ends count for
//! nothing, wherever they stand.

use crate::geometry::{SplitDirection, RATIO_ONE};
use crate::layout::{Layout, PaneSettings};
use crate::numbers::{
    decimal_bytes, is_digit, lemma_decimal_bytes, lemma_number_read, lemma_number_written,
    number_at, read_number, write_number,
};
use vstd::prelude::*;

verus! {

pub const PANE: u8 = 0x70;

pub const HORIZONTAL: u8 = 0x68;

pub const VERTICAL: u8 = 0x76;

pub const UNSELECTABLE: u8 = 0x21;

pub const FRAMELESS: u8 = 0x5f;

pub const HEIGHT: u8 = 0x5e;

pub const OPEN: u8 = 0x28;

pub const COMMA: u8 = 0x2c;

pub const CLOSE: u8 = 0x29;

/// Whether `byte` is a blank, a tab or the end of a line.
pub open spec fn is_space(byte: u8) -> bool {
    byte == 0x20 || byte == 0x09 || byte == 0x0a || byte == 0x0d
}

/// The text without the bytes that count for nothing.
pub open spec fn stripped(text: Seq<u8>) -> Seq<u8> {
    text.filter(|byte: u8| !is_space(byte))
}

/// The byte that stands for a direction.
pub open spec fn direction_byte(direction: SplitDirection) -> u8 {
    match direction {
        SplitDirection::Horizontal => HORIZONTAL,
        SplitDirection::Vertical => VERTICAL,
    }
}

/// The settings of a pane as they are written after the `p`.
pub open spec fn written_settings(settings: PaneSettings) -> Seq<u8> {
    (if settings.selectable {
        Seq::<u8>::empty()
    } else {
        seq![UNSELECTABLE]
    }) + (if settings.invisible_borders {
        seq![FRAMELESS]
    } else {
        Seq::<u8>::empty()
    }) + (match settings.max_height {
        Some(rows) => seq![HEIGHT] + decimal_bytes(rows as nat),
        None => Seq::<u8>::empty(),
    })
}

/// The layout as it is written, without a byte that counts for nothing.
pub open spec fn written(layout: Layout) -> Seq<u8>
    decreases layout,
{
    match layout {
        Layout::Pane(settings) => seq![PANE] + written_settings(settings),
        Layout::Split { direction, ratio, first, second } => seq![direction_byte(direction)]
            + decimal_bytes(ratio as nat) + seq![OPEN] + written(*first) + seq![COMMA] + written(
            *second,
        ) + seq![CLOSE],
    }
}

/// The settings that are written at `at`, and where they end.
pub open spec fn settings_at(text: Seq<u8>, at: int) -> Option<(PaneSettings, int)> {
    let unselectable = 0 <= at < text.len() && text[at] == UNSELECTABLE;
    let next = if unselectable {
        at + 1
    } else {
        at
    };
    let frameless = 0 <= next < text.len() && text[next] == FRAMELESS;
    let last = if frameless {
        next + 1
    } else {
        next
    };
    if 0 <= last < text.len() && text[last] == HEIGHT {
        match number_at(text, last + 1, usize::MAX as nat) {
            Some((rows, end)) => Some(
                (
                    PaneSettings {
                        selectable: !unselectable,
                        max_height: Some(rows as usize),
                        invisible_borders: frameless,
                    },
                    end,
                ),
            ),
            None => None,
        }
    } else {
        Some(
            (
                PaneSettings {
                    selectable: !unselectable,
                    max_height: None,
                    invisible_borders: frameless,
                },
                last,
            ),
        )
    }
}

/// The layout that is written at `at`, and where it ends; `None` where no
/// layout is written there.
pub open spec fn node_at(text: Seq<u8>, at: int) -> Option<(Layout, int)>
    decreases text.len() - at,
{
    if at < 0 || at >= text.len() {
        None
    } else if text[at] == PANE {
        match settings_at(text, at + 1) {
            Some((settings, end)) => Some((Layout::Pane(settings), end)),
            None => None,
        }
    } else if text[at] == HORIZONTAL || text[at] == VERTICAL {
        let direction = if text[at] == HORIZONTAL {
            SplitDirection::Horizontal
        } else {
            SplitDirection::Vertical
        };
        match number_at(text, at + 1, RATIO_ONE as nat) {
            None => None,
            Some((ratio, opens)) => if !(at < opens < text.len()) || text[opens] != OPEN {
                None
            } else {
                match node_at(text, opens + 1) {
                    None => None,
                    Some((first, comma)) => if !(opens < comma < text.len()) || text[comma]
                        != COMMA {
                        None
                    } else {
                        match node_at(text, comma + 1) {
                            None => None,
                            Some((second, closes)) => if !(comma < closes < text.len())
                                || text[closes] != CLOSE {
                                None
                            } else {
                                Some(
                                    (
                                        Layout::Split {
                                            direction,
                                            ratio: ratio as u16,
                                            first: Box::new(first),
                                            second: Box::new(second),
                                        },
                                        closes + 1,
                                    ),
                                )
                            },
                        }
                    },
                }
            },
        }
    } else {
        None
    }
}

/// The layout that a text holds; `None` where it holds none, or more than
/// one layout.
pub open spec fn parsed(text: Seq<u8>) -> Option<Layout> {
    match node_at(stripped(text), 0) {
        Some((layout, end)) => if end == stripped(text).len() {
            Some(layout)
        } else {
            None
        },
        None => None,
    }
}

/// Reads the settings that are written at `at`.
fn read_settings(text: &Vec<u8>, at: usize) -> (r: Option<(PaneSettings, usize)>)
    requires
        at <= text.len(),
    ensures
        r matches Some((settings, end)) ==> settings_at(text@, at as int) == Some(
            (settings, end as int),
        ) && at <= end <= text.len(),
        r is None ==> settings_at(text@, at as int) is None,
{
    let mut next = at;
    let mut selectable = true;
    let mut invisible_borders = false;
    if next < text.len() && text[next] == UNSELECTABLE {
        selectable = false;
        next += 1;
    }
    if next < text.len() && text[next] == FRAMELESS {
        invisible_borders = true;
        next += 1;
    }
    if next < text.len() && text[next] == HEIGHT {
        match read_number(text, next + 1, usize::MAX) {
            Some((rows, end)) => {
                proof {
                    lemma_number_read(text@, next as int + 1, usize::MAX as nat);
                }
                Some((PaneSettings { selectable, max_height: Some(rows), invisible_borders }, end))
            },
            None => None,
        }
    } else {
        Some((PaneSettings { selectable, max_height: None, invisible_borders }, next))
    }
}

/// Reads the layout that is written at `at`.
fn read_node(text: &Vec<u8>, at: usize) -> (r: Option<(Layout, usize)>)
    ensures
        r matches Some((layout, end)) ==> node_at(text@, at as int) == Some((layout, end as int))
            && at < end <= text.len(),
        r is None ==> node_at(text@, at as int) is None,
    decreases text.len() - at,
{
    if at >= text.len() {
        return None;
    }
    let tag = text[at];
    if tag == PANE {
        match read_settings(text, at + 1) {
            Some((settings, end)) => Some((Layout::Pane(settings), end)),
            None => None,
        }
    } else if tag == HORIZONTAL || tag == VERTICAL {
        let direction = if tag == HORIZONTAL {
            SplitDirection::Horizontal
        } else {
            SplitDirection::Vertical
        };
        let (ratio, opens) = match read_number(text, at + 1, RATIO_ONE as usize) {
            Some(read) => read,
            None => {
                return None;
            },
        };
        proof {
            lemma_number_read(text@, at as int + 1, RATIO_ONE as nat);
        }
        if opens >= text.len() || text[opens] != OPEN {
            return None;
        }
        let (first, comma) = match read_node(text, opens + 1) {
            Some(read) => read,
            None => {
                return None;
            },
        };
        if comma >= text.len() || text[comma] != COMMA {
            return None;
        }
        let (second, closes) = match read_node(text, comma + 1) {
            Some(read) => read,
            None => {
                return None;
            },
        };
        if closes >= text.len() || text[closes] != CLOSE {
            return None;
        }
        Some(
            (
                Layout::Split {
                    direction,
                    ratio: ratio as u16,
                    first: Box::new(first),
                    second: Box::new(second),
                },
                closes + 1,
            ),
        )
    } else {
        None
    }
}

/// The text without the bytes that count for nothing.
fn strip(text: &Vec<u8>) -> (r: Vec<u8>)
    ensures
        r@ == stripped(text@),
{
    let mut kept: Vec<u8> = Vec::new();
    let ghost keep = |byte: u8| !is_space(byte);
    assert(text@.take(0).filter(keep) =~= Seq::<u8>::empty()) by {
        reveal(Seq::filter);
    }
    let mut i: usize = 0;
    while i < text.len()
        invariant
            0 <= i <= text.len(),
            keep == (|byte: u8| !is_space(byte)),
            kept@ == text@.take(i as int).filter(keep),
        decreases text.len() - i,
    {
        let byte = text[i];
        proof {
            assert(text@.take(i as int + 1) =~= text@.take(i as int).push(byte));
            text@.take(i as int).lemma_filter_push(byte, keep);
        }
        if !(byte == 0x20 || byte == 0x09 || byte == 0x0a || byte == 0x0d) {
            kept.push(byte);
        }
        i += 1;
    }
    assert(text@.take(text.len() as int) =~= text@);
    kept
}

impl Layout {
    /// Reads the layout that a text holds.
    pub fn parse(text: &Vec<u8>) -> (r: Option<Layout>)
        ensures
            r == parsed(text@),
            r matches Some(layout) ==> layout.wf() && written(layout) == stripped(text@),
    {
        let bare = strip(text);
        match read_node(&bare, 0) {
            Some((layout, end)) => {
                if end == bare.len() {
                    proof {
                        lemma_written_back(bare@, 0);
                        assert(bare@.subrange(0, bare@.len() as int) =~= bare@);
                    }
                    Some(layout)
                } else {
                    None
                }
            },
            None => None,
        }
    }

    /// Appends the layout as it is written.
    pub fn write_to(&self, out: &mut Vec<u8>)
        ensures
            final(out)@ == old(out)@ + written(*self),
        decreases *self,
    {
        match self {
            Layout::Pane(settings) => {
                out.push(PANE);
                if !settings.selectable {
                    out.push(UNSELECTABLE);
                }
                if settings.invisible_borders {
                    out.push(FRAMELESS);
                }
                match settings.max_height {
                    Some(rows) => {
                        out.push(HEIGHT);
                        write_number(out, rows);
                    },
                    None => {},
                }
                assert(out@ =~= old(out)@ + written(*self));
            },
            Layout::Split { direction, ratio, first, second } => {
                out.push(
                    match direction {
                        SplitDirection::Horizontal => HORIZONTAL,
                        SplitDirection::Vertical => VERTICAL,
                    },
                );
                write_number(out, *ratio as usize);
                out.push(OPEN);
                first.write_to(out);
                out.push(COMMA);
                second.write_to(out);
                out.push(CLOSE);
                assert(out@ =~= old(out)@ + written(*self));
            },
        }
    }

    /// The layout as it is written.
    pub fn serialize(&self) -> (r: Vec<u8>)
        ensures
            r@ == written(*self),
            self.wf() ==> parsed(r@) == Some(*self),
    {
        let mut out: Vec<u8> = Vec::new();
        self.write_to(&mut out);
        proof {
            assert(out@ =~= written(*self));
            if self.wf() {
                lemma_parse_written(*self);
            }
        }
        out
    }
}

/// Where a layout is read, the bytes that were read are the layout as it is
/// written, and the layout is well-formed.
pub proof fn lemma_written_back(text: Seq<u8>, at: int)
    requires
        node_at(text, at) is Some,
    ensures
        ({
            let (layout, end) = node_at(text, at).unwrap();
            &&& at < end <= text.len()
            &&& text.subrange(at, end) == written(layout)
            &&& layout.wf()
        }),
    decreases text.len() - at,
{
    let (layout, end) = node_at(text, at).unwrap();
    if text[at] == PANE {
        let (settings, ends) = settings_at(text, at + 1).unwrap();
        let unselectable = at + 1 < text.len() && text[at + 1] == UNSELECTABLE;
        let next = if unselectable {
            at + 2
        } else {
            at + 1
        };
        let frameless = next < text.len() && text[next] == FRAMELESS;
        let last = if frameless {
            next + 1
        } else {
            next
        };
        if last < text.len() && text[last] == HEIGHT {
            lemma_number_read(text, last + 1, usize::MAX as nat);
        }
        assert(text.subrange(at, end) =~= written(layout));
    } else {
        lemma_number_read(text, at + 1, RATIO_ONE as nat);
        let (ratio, opens) = number_at(text, at + 1, RATIO_ONE as nat).unwrap();
        lemma_written_back(text, opens + 1);
        let (first, comma) = node_at(text, opens + 1).unwrap();
        lemma_written_back(text, comma + 1);
        let (second, closes) = node_at(text, comma + 1).unwrap();
        assert(text.subrange(at, end) =~= seq![text[at]] + text.subrange(at + 1, opens) + seq![
            OPEN,
        ] + text.subrange(opens + 1, comma) + seq![COMMA] + text.subrange(comma + 1, closes)
            + seq![CLOSE]);
    }
}

/// The bytes of a text from `at` on are the bytes of `image`.
pub open spec fn holds_at(text: Seq<u8>, at: int, image: Seq<u8>) -> bool {
    &&& 0 <= at
    &&& at + image.len() <= text.len()
    &&& forall|i: int| 0 <= i < image.len() ==> text[at + i] == #[trigger] image[i]
}

/// What may follow a layout: a comma, a closing bracket, or nothing.
pub open spec fn ends_at(text: Seq<u8>, end: int) -> bool {
    end < text.len() ==> text[end] == COMMA || text[end] == CLOSE
}

/// A text holds at `at` each of two images that it holds one after the
/// other.
proof fn lemma_holds_parts(text: Seq<u8>, at: int, head: Seq<u8>, tail: Seq<u8>)
    requires
        holds_at(text, at, head + tail),
    ensures
        holds_at(text, at, head),
        holds_at(text, at + head.len(), tail),
{
    let image = head + tail;
    assert forall|i: int| 0 <= i < head.len() implies text[at + i] == #[trigger] head[i] by {
        assert(image[i] == head[i]);
    }
    assert forall|i: int| 0 <= i < tail.len() implies text[at + head.len() + i]
        == #[trigger] tail[i] by {
        assert(image[head.len() + i] == tail[i]);
    }
}

/// A number that a text holds at `at`, before a byte that is no digit, is
/// read there.
proof fn lemma_number_held(text: Seq<u8>, at: int, value: nat, limit: nat)
    requires
        holds_at(text, at, decimal_bytes(value)),
        at + decimal_bytes(value).len() < text.len() ==> !is_digit(
            text[at + decimal_bytes(value).len()],
        ),
        value <= limit,
    ensures
        number_at(text, at, limit) == Some((value, at + decimal_bytes(value).len())),
{
    let digits = decimal_bytes(value);
    assert(text.subrange(at, at + digits.len()) =~= digits);
    lemma_number_written(text, at, value, limit);
}

/// The height of a pane that is written at `at` is read there.
proof fn lemma_height_read_back(text: Seq<u8>, at: int, max_height: Option<usize>)
    requires
        holds_at(
            text,
            at,
            match max_height {
                Some(rows) => seq![HEIGHT] + decimal_bytes(rows as nat),
                None => Seq::<u8>::empty(),
            },
        ),
        ends_at(
            text,
            at + (match max_height {
                Some(rows) => 1 + decimal_bytes(rows as nat).len(),
                None => 0,
            }),
        ),
    ensures
        match max_height {
            Some(rows) => text[at] == HEIGHT && number_at(text, at + 1, usize::MAX as nat) == Some(
                (rows as nat, at + 1 + decimal_bytes(rows as nat).len()),
            ),
            None => !(at < text.len() && text[at] == HEIGHT),
        },
{
    match max_height {
        Some(rows) => {
            let digits = decimal_bytes(rows as nat);
            lemma_holds_parts(text, at, seq![HEIGHT], digits);
            assert(text[at + 0] == seq![HEIGHT][0]);
            lemma_number_held(text, at + 1, rows as nat, usize::MAX as nat);
        },
        None => {},
    }
}

/// The settings of a pane that are written at `at`, before a comma, a
/// closing bracket or the end of the text, are read there.
proof fn lemma_settings_read_back(text: Seq<u8>, at: int, settings: PaneSettings)
    requires
        holds_at(text, at, written_settings(settings)),
        ends_at(text, at + written_settings(settings).len()),
    ensures
        settings_at(text, at) == Some((settings, at + written_settings(settings).len())),
{
    let first = if settings.selectable {
        Seq::<u8>::empty()
    } else {
        seq![UNSELECTABLE]
    };
    let second = if settings.invisible_borders {
        seq![FRAMELESS]
    } else {
        Seq::<u8>::empty()
    };
    let third = match settings.max_height {
        Some(rows) => seq![HEIGHT] + decimal_bytes(rows as nat),
        None => Seq::<u8>::empty(),
    };
    assert(written_settings(settings) == first + second + third);
    lemma_holds_parts(text, at, first + second, third);
    lemma_holds_parts(text, at, first, second);
    let next = at + first.len();
    let last = next + second.len();
    lemma_height_read_back(text, last, settings.max_height);
    if !settings.selectable {
        assert(text[at + 0] == first[0]);
    }
    if settings.invisible_borders {
        assert(text[next + 0] == second[0]);
    }
    // what follows an absent mark is another mark, the height or the end
    if settings.selectable && at < text.len() {
        if settings.invisible_borders {
        } else if settings.max_height is Some {
        } else {
        }
        assert(text[at] != UNSELECTABLE);
    }
    if !settings.invisible_borders && next < text.len() {
        assert(text[next] != FRAMELESS);
    }
}

/// A well-formed layout that is written at `at`, before a comma, a closing
/// bracket or the end of the text, is read there.
pub proof fn lemma_read_back(text: Seq<u8>, at: int, layout: Layout)
    requires
        layout.wf(),
        holds_at(text, at, written(layout)),
        ends_at(text, at + written(layout).len()),
    ensures
        node_at(text, at) == Some((layout, at + written(layout).len())),
    decreases layout, 1int,
{
    match layout {
        Layout::Pane(settings) => {
            lemma_holds_parts(text, at, seq![PANE], written_settings(settings));
            assert(text[at + 0] == seq![PANE][0]);
            lemma_settings_read_back(text, at + 1, settings);
        },
        Layout::Split { .. } => {
            lemma_split_read_back(text, at, layout);
        },
    }
}

/// The same, of a split.
proof fn lemma_split_read_back(text: Seq<u8>, at: int, layout: Layout)
    requires
        layout is Split,
        layout.wf(),
        holds_at(text, at, written(layout)),
        ends_at(text, at + written(layout).len()),
    ensures
        node_at(text, at) == Some((layout, at + written(layout).len())),
    decreases layout, 0int,
{
    match layout {
        Layout::Pane(_) => {},
        Layout::Split { direction, ratio, first, second } => {
            let digits = decimal_bytes(ratio as nat);
            let head = written(*first);
            let tail = written(*second);
            let tag = seq![direction_byte(direction)];
            let open = seq![OPEN];
            let comma_mark = seq![COMMA];
            let close = seq![CLOSE];
            assert(written(layout) == tag + digits + open + head + comma_mark + tail + close);
            let opens = at + 1 + digits.len();
            let comma = opens + 1 + head.len();
            let closes = comma + 1 + tail.len();
            lemma_holds_parts(text, at, tag + digits + open + head + comma_mark + tail, close);
            lemma_holds_parts(text, at, tag + digits + open + head + comma_mark, tail);
            lemma_holds_parts(text, at, tag + digits + open + head, comma_mark);
            lemma_holds_parts(text, at, tag + digits + open, head);
            lemma_holds_parts(text, at, tag + digits, open);
            lemma_holds_parts(text, at, tag, digits);
            assert(text[at + 0] == tag[0]);
            assert(text[opens + 0] == open[0]);
            assert(text[comma + 0] == comma_mark[0]);
            assert(text[closes + 0] == close[0]);
            lemma_number_held(text, at + 1, ratio as nat, RATIO_ONE as nat);
            lemma_read_back(text, opens + 1, *first);
            lemma_read_back(text, comma + 1, *second);
            lemma_decimal_bytes(ratio as nat);
            assert(node_at(text, opens + 1) == Some((*first, comma)));
            assert(node_at(text, comma + 1) == Some((*second, closes)));
            assert(number_at(text, at + 1, RATIO_ONE as nat) == Some((ratio as nat, opens)));
        },
    }
}

/// No byte of a layout as it is written counts for nothing.
pub proof fn lemma_written_is_bare(layout: Layout)
    ensures
        forall|i: int| 0 <= i < written(layout).len() ==> !is_space(#[trigger] written(layout)[i]),
    decreases layout,
{
    let image = written(layout);
    match layout {
        Layout::Pane(settings) => {
            match settings.max_height {
                Some(rows) => {
                    lemma_decimal_bytes(rows as nat);
                    let digits = decimal_bytes(rows as nat);
                    assert forall|i: int| 0 <= i < image.len() implies !is_space(
                        #[trigger] image[i],
                    ) by {
                        let start = image.len() - digits.len();
                        if i >= start {
                            assert(image[i] == digits[i - start]);
                            assert(is_digit(digits[i - start]));
                        }
                    }
                },
                None => {},
            }
        },
        Layout::Split { direction, ratio, first, second } => {
            lemma_decimal_bytes(ratio as nat);
            lemma_written_is_bare(*first);
            lemma_written_is_bare(*second);
            let digits = decimal_bytes(ratio as nat);
            let head = written(*first);
            let tail = written(*second);
            let opens = 1 + digits.len();
            let comma = opens + 1 + head.len();
            let closes = comma + 1 + tail.len();
            assert forall|i: int| 0 <= i < image.len() implies !is_space(#[trigger] image[i]) by {
                if 1 <= i < opens {
                    assert(image[i] == digits[i - 1]);
                    assert(is_digit(digits[i - 1]));
                } else if opens < i < comma {
                    assert(image[i] == head[i - opens - 1]);
                } else if comma < i < closes {
                    assert(image[i] == tail[i - comma - 1]);
                }
            }
        },
    }
}

/// A well-formed layout that is written out and read again is the same
/// layout.
pub proof fn lemma_parse_written(layout: Layout)
    requires
        layout.wf(),
    ensures
        parsed(written(layout)) == Some(layout),
{
    let image = written(layout);
    lemma_written_is_bare(layout);
    crate::sequences::lemma_filter_all(image, |byte: u8| !is_space(byte));
    lemma_read_back(image, 0, layout);
}

/// A layout that is read from a text and written out again is the text,
/// less the bytes that count for nothing.
pub proof fn lemma_written_parsed(text: Seq<u8>)
    requires
        parsed(text) is Some,
    ensures
        written(parsed(text).unwrap()) == stripped(text),
        parsed(text).unwrap().wf(),
{
    let bare = stripped(text);
    lemma_written_back(bare, 0);
    assert(bare.subrange(0, bare.len() as int) =~= bare);
}

} // verus!
