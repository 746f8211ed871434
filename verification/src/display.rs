//! The status screen: which shapes are drawn on each refresh, given the menu
//! selection, the radio state and the messages read from the UART.
use vstd::prelude::*;
use vstd::string::StringSliceAdditionalSpecFns;
use vstd::utf8::{valid_utf8, decode_utf8, encode_utf8, encode_utf8_decode_utf8, decode_utf8_encode_utf8};
use crate::text::{str_from_utf8, is_ascii_byte, ascii_chars, lemma_ascii_decodes};
use crate::bounded::MESSAGE_CAP;
use crate::uart_line::{line_content, line_feed, lemma_line_handed_over, CARRIAGE_RETURN};

verus! {

/// How a text is drawn: the plain (white) style or the highlight (blue) style.
#[derive(PartialEq, Eq, Structural, Clone, Copy, Debug)]
pub enum TextStyle {
    Plain,
    Highlight,
}

/// One drawing operation on the screen.
#[derive(Debug, PartialEq, Eq)]
pub enum DrawCmd<'a> {
    /// Fills a rectangle with the background colour.
    Clear { x: i32, y: i32, width: u32, height: u32 },
    /// Draws a one pixel wide line in the foreground colour.
    Line { x0: i32, y0: i32, x1: i32, y1: i32 },
    /// Draws a text whose baseline starts at the given point.
    Text { text: &'a str, x: i32, y: i32, style: TextStyle },
}

/// What a drawing operation draws, with its text as characters.
pub enum Shape {
    Clear { x: i32, y: i32, width: u32, height: u32 },
    Line { x0: i32, y0: i32, x1: i32, y1: i32 },
    Text { text: Seq<char>, x: i32, y: i32, style: TextStyle },
}

impl<'a> View for DrawCmd<'a> {
    type V = Shape;

    open spec fn view(&self) -> Shape {
        match *self {
            DrawCmd::Clear { x, y, width, height } => Shape::Clear { x, y, width, height },
            DrawCmd::Line { x0, y0, x1, y1 } => Shape::Line { x0, y0, x1, y1 },
            DrawCmd::Text { text, x, y, style } => Shape::Text { text: text@, x, y, style },
        }
    }
}

/// The shapes drawn by a list of drawing operations.
pub open spec fn shapes<'a>(cmds: Seq<DrawCmd<'a>>) -> Seq<Shape> {
    cmds.map_values(|c: DrawCmd<'a>| c@)
}

pub open spec fn clear(x: i32, y: i32, width: u32, height: u32) -> Shape {
    Shape::Clear { x, y, width, height }
}

/// A horizontal separator across the screen at height `y`.
pub open spec fn rule(y: i32) -> Shape {
    Shape::Line { x0: 1, y0: y, x1: 310, y1: y }
}

pub open spec fn label(text: Seq<char>, x: i32, y: i32, style: TextStyle) -> Shape {
    Shape::Text { text, x, y, style }
}

/// Name of the menu entry at position `pos` (1 to 3).
pub open spec fn entry_name(pos: int) -> Seq<char> {
    if pos == 1 {
        "1 MENU"@
    } else if pos == 2 {
        "2 MENU"@
    } else {
        "3 MENU"@
    }
}

/// Description shown below the menu for the selected entry.
pub open spec fn entry_description(pos: int) -> Seq<char> {
    if pos == 1 {
        "SOMEEEEE"@
    } else if pos == 2 {
        "TWOOOOOOOO"@
    } else if pos == 3 {
        "THREEEE"@
    } else {
        "UNKOWN"@
    }
}

/// Height of the menu line of entry `pos`.
pub open spec fn entry_y(pos: int) -> int {
    pos * 30 + 15
}

/// Height of the selection arrow for the selected entry, as the screen
/// coordinate computes it from the selection.
pub open spec fn arrow_y(selected: usize) -> int {
    (#[verifier::truncate] (selected as i32)) * 30 + 15
}

/// Whether the arrow for the selected entry has a screen coordinate.
pub open spec fn arrow_fits(selected: usize) -> bool {
    i32::MIN <= arrow_y(selected) <= i32::MAX
}

/// The shapes of the menu line at position `pos`: highlighted, with a separator
/// and the entry's description, when it is the selected entry.
pub open spec fn entry_shapes(selected: usize, pos: int) -> Seq<Shape> {
    if selected == pos {
        seq![
            label(entry_name(pos), 40, entry_y(pos) as i32, TextStyle::Highlight),
            rule(150),
            label(entry_description(pos), 20, 200, TextStyle::Plain),
        ]
    } else {
        seq![label(entry_name(pos), 40, entry_y(pos) as i32, TextStyle::Plain)]
    }
}

/// The shapes of the menu lines at positions 1 to `count`.
pub open spec fn entries_upto(selected: usize, count: int) -> Seq<Shape>
    decreases count,
{
    if count <= 0 {
        Seq::empty()
    } else {
        entries_upto(selected, count - 1) + entry_shapes(selected, count)
    }
}

/// The shapes drawn when the selection changed since the previous refresh:
/// the arrow column and the description are cleared and the arrow redrawn.
pub open spec fn selection_shapes(shown: usize, selected: usize) -> Seq<Shape> {
    if shown != selected {
        seq![
            clear(1, 10, 30, 130),
            clear(20, 180, 200, 50),
            label("->"@, 1, arrow_y(selected) as i32, TextStyle::Highlight),
        ]
    } else {
        Seq::empty()
    }
}

/// The radio status text: ENABLE or DISABLE.
pub open spec fn status_shape(on: bool) -> Shape {
    label(if on { "ENABLE"@ } else { "DISABLE"@ }, 200, 340, TextStyle::Plain)
}

/// The lower part of the screen: the radio line, which shows the state the
/// previous refresh saw and is cleared when the radio state changed since, and
/// the UART caption.
pub open spec fn radio_shapes(rf_shown: bool, rf: bool) -> Seq<Shape> {
    seq![
        rule(300),
        label("RF-DEVICE:"@, 20, 340, TextStyle::Plain),
        status_shape(rf_shown),
        rule(360),
    ] + (if rf_shown != rf {
        seq![clear(200, 315, 300, 25)]
    } else {
        Seq::empty()
    }) + seq![label("UART READ:"@, 20, 390, TextStyle::Plain)]
}

/// The shapes of one refresh of the screen. `shown` and `rf_shown` are what the
/// previous refresh drew, `selected` and `rf` the current menu selection and
/// radio state.
pub open spec fn frame_shapes(shown: usize, rf_shown: bool, selected: usize, rf: bool) -> Seq<Shape> {
    selection_shapes(shown, selected) + entries_upto(selected, 3) + radio_shapes(rf_shown, rf)
}

/// The shapes that show a message read from the UART.
pub open spec fn message_shapes(text: Seq<char>) -> Seq<Shape> {
    seq![clear(1, 395, 500, 40), label(text, 20, 420, TextStyle::Plain)]
}

fn push_cmd<'a>(cmds: &mut Vec<DrawCmd<'a>>, cmd: DrawCmd<'a>)
    ensures
        shapes(final(cmds)@) == shapes(old(cmds)@).push(cmd@),
{
    cmds.push(cmd);
    assert(shapes(cmds@) =~= shapes(old(cmds)@).push(cmd@)) by {
        assert(cmds@ =~= old(cmds)@.push(cmd));
    }
}

/// What the screen shows of the menu selection and of the radio state.
pub struct DisplayState {
    /// The menu entry the arrow points at.
    pub flag: usize,
    /// The radio state the radio line was last updated for.
    pub rf_flag: bool,
}

impl DisplayState {
    /// The state before the first refresh: no entry and the radio off.
    pub fn new() -> (s: Self)
        ensures
            s.flag == 0,
            s.rf_flag == false,
    {
        DisplayState { flag: 0, rf_flag: false }
    }

    /// One refresh of the screen for the current menu selection and radio state:
    /// returns the drawing operations, in order, and remembers what was shown.
    pub fn render_frame(&mut self, selected: usize, rf: bool) -> (cmds: Vec<DrawCmd<'static>>)
        requires
            old(self).flag != selected ==> arrow_fits(selected),
        ensures
            final(self).flag == selected,
            final(self).rf_flag == rf,
            shapes(cmds@) == frame_shapes(old(self).flag, old(self).rf_flag, selected, rf),
            // A changed selection first erases the arrow column and the
            // description area, then draws the arrow on the selected row.
            old(self).flag != selected ==> {
                &&& cmds@.len() >= 3
                &&& cmds@[0]@ == (Shape::Clear { x: 1, y: 10, width: 30, height: 130 })
                &&& cmds@[1]@ == (Shape::Clear { x: 20, y: 180, width: 200, height: 50 })
                &&& cmds@[2]@ == (Shape::Text {
                    text: "->"@,
                    x: 1,
                    y: ((#[verifier::truncate] (selected as i32)) * 30 + 15) as i32,
                    style: TextStyle::Highlight,
                })
            },
            (old(self).flag != selected && 1 <= selected <= 3) ==> cmds@[2]@ == (Shape::Text {
                text: "->"@,
                x: 1,
                y: (selected * 30 + 15) as i32,
                style: TextStyle::Highlight,
            }),
            // An unchanged selection neither erases nor redraws the arrow.
            old(self).flag == selected ==> (forall|i: int| 0 <= i < cmds@.len() ==>
                (#[trigger] cmds@[i])@ != (Shape::Clear { x: 1, y: 10, width: 30, height: 130 })
                && cmds@[i]@ != (Shape::Clear { x: 20, y: 180, width: 200, height: 50 })
                && !(cmds@[i]@ matches Shape::Text { x: 1, .. })),
    {
        let mut cmds: Vec<DrawCmd<'static>> = Vec::new();
        if self.flag != selected {
            let m: i32 = #[verifier::truncate] (selected as i32);
            let y: i32 = m * 30 + 15;
            push_cmd(&mut cmds, DrawCmd::Clear { x: 1, y: 10, width: 30, height: 130 });
            push_cmd(&mut cmds, DrawCmd::Clear { x: 20, y: 180, width: 200, height: 50 });
            push_cmd(&mut cmds, DrawCmd::Text { text: "->", x: 1, y, style: TextStyle::Highlight });
            self.flag = selected;
        }
        let ghost head = shapes(cmds@);
        assert(head =~= (if old(self).flag != selected {
            seq![
                clear(1, 10, 30, 130),
                clear(20, 180, 200, 50),
                label("->"@, 1, arrow_y(selected) as i32, TextStyle::Highlight),
            ]
        } else {
            Seq::<Shape>::empty()
        }));
        let menu_list: [&'static str; 3] = ["1 MENU", "2 MENU", "3 MENU"];
        let mut len: usize = 0;
        while len < 3
            invariant
                len <= 3,
                self.flag == selected,
                menu_list@ == seq!["1 MENU", "2 MENU", "3 MENU"],
                shapes(cmds@) == head + entries_upto(selected, len as int),
            decreases 3 - len,
        {
            let posion: usize = len + 1;
            let name: &'static str = menu_list[len];
            let y: i32 = (posion as i32) * 30 + 15;
            let ghost before = shapes(cmds@);
            assert(name@ == entry_name(posion as int));
            if self.flag == posion {
                let description: &'static str = match self.flag {
                    1 => "SOMEEEEE",
                    2 => "TWOOOOOOOO",
                    3 => "THREEEE",
                    _ => "UNKOWN",
                };
                push_cmd(&mut cmds, DrawCmd::Text { text: name, x: 40, y, style: TextStyle::Highlight });
                push_cmd(&mut cmds, DrawCmd::Line { x0: 1, y0: 150, x1: 310, y1: 150 });
                push_cmd(&mut cmds, DrawCmd::Text { text: description, x: 20, y: 200, style: TextStyle::Plain });
            } else {
                push_cmd(&mut cmds, DrawCmd::Text { text: name, x: 40, y, style: TextStyle::Plain });
            }
            assert(shapes(cmds@) =~= before + entry_shapes(selected, posion as int));
            assert(head + entries_upto(selected, posion as int) =~= head + entries_upto(selected, len as int) + entry_shapes(selected, posion as int));
            len = posion;
        }
        push_cmd(&mut cmds, DrawCmd::Line { x0: 1, y0: 300, x1: 310, y1: 300 });
        push_cmd(&mut cmds, DrawCmd::Text { text: "RF-DEVICE:", x: 20, y: 340, style: TextStyle::Plain });
        if self.rf_flag {
            push_cmd(&mut cmds, DrawCmd::Text { text: "ENABLE", x: 200, y: 340, style: TextStyle::Plain });
        } else {
            push_cmd(&mut cmds, DrawCmd::Text { text: "DISABLE", x: 200, y: 340, style: TextStyle::Plain });
        }
        push_cmd(&mut cmds, DrawCmd::Line { x0: 1, y0: 360, x1: 310, y1: 360 });
        if self.rf_flag != rf {
            push_cmd(&mut cmds, DrawCmd::Clear { x: 200, y: 315, width: 300, height: 25 });
            self.rf_flag = rf;
        }
        push_cmd(&mut cmds, DrawCmd::Text { text: "UART READ:", x: 20, y: 390, style: TextStyle::Plain });
        assert(shapes(cmds@) =~= frame_shapes(old(self).flag, old(self).rf_flag, selected, rf));
        proof {
            let f = frame_shapes(old(self).flag, old(self).rf_flag, selected, rf);
            assert forall|i: int| 0 <= i < cmds@.len() implies (#[trigger] cmds@[i])@ == f[i] by {
                assert(shapes(cmds@)[i] == cmds@[i]@);
            }
            if old(self).flag == selected {
                lemma_unchanged_selection(selected, old(self).rf_flag, rf);
                assert forall|i: int| 0 <= i < cmds@.len() implies
                    (#[trigger] cmds@[i])@ != Shape::Clear { x: 1, y: 10, width: 30, height: 130 }
                    && cmds@[i]@ != Shape::Clear { x: 20, y: 180, width: 200, height: 50 }
                    && !(cmds@[i]@ matches Shape::Text { x: 1, .. }) by {
                    assert(cmds@[i]@ == f[i]);
                    assert(!is_arrow(f[i]));
                }
            } else {
                assert(cmds@[0]@ == f[0]);
                assert(cmds@[1]@ == f[1]);
                assert(cmds@[2]@ == f[2]);
            }
        }
        cmds
    }
}

/// The drawing operations that show a message read from the UART. The message
/// must be valid UTF-8.
pub fn render_message<'a>(data: &'a [u8]) -> (cmds: Vec<DrawCmd<'a>>)
    requires
        valid_utf8(data@),
    ensures
        shapes(cmds@) == message_shapes(decode_utf8(data@)),
        // The area under UART READ is erased, then the whole message is drawn.
        cmds@.len() == 2,
        cmds@[0]@ == (Shape::Clear { x: 1, y: 395, width: 500, height: 40 }),
        cmds@[1]@ == (Shape::Text { text: decode_utf8(data@), x: 20, y: 420, style: TextStyle::Plain }),
        // The text drawn encodes back to exactly the bytes received: nothing is
        // cut, added or changed.
        cmds@[1]@ is Text && encode_utf8(cmds@[1]@->Text_text) == data@,
{
    match str_from_utf8(data) {
        Ok(msg) => {
            proof {
                encode_utf8_decode_utf8(msg@);
            }
            let mut cmds: Vec<DrawCmd<'a>> = Vec::new();
            push_cmd(&mut cmds, DrawCmd::Clear { x: 1, y: 395, width: 500, height: 40 });
            push_cmd(&mut cmds, DrawCmd::Text { text: msg, x: 20, y: 420, style: TextStyle::Plain });
            assert(shapes(cmds@) =~= message_shapes(decode_utf8(data@)));
            assert(cmds@[0]@ == shapes(cmds@)[0]);
            assert(cmds@[1]@ == shapes(cmds@)[1]);
            proof {
                decode_utf8_encode_utf8(data@);
            }
            cmds
        },
        Err(_) => vstd::pervasive::unreached(),
    }
}

/// The selection arrow: the text drawn in the arrow column.
pub open spec fn is_arrow(s: Shape) -> bool {
    s matches Shape::Text { x, .. } && x == 1
}

/// A refresh whose selection is the one the screen already shows neither
/// clears the arrow column or the description nor redraws the arrow, whatever
/// the radio state: it draws the menu lines of the selection and the radio
/// part. When the radio state is unchanged too, nothing at all is cleared.
pub proof fn lemma_unchanged_selection(selected: usize, rf_shown: bool, rf: bool)
    ensures
        frame_shapes(selected, rf_shown, selected, rf) == entries_upto(selected, 3) + radio_shapes(rf_shown, rf),
        forall|i: int| 0 <= i < frame_shapes(selected, rf_shown, selected, rf).len() ==> {
            let s = #[trigger] frame_shapes(selected, rf_shown, selected, rf)[i];
            &&& s != clear(1, 10, 30, 130)
            &&& s != clear(20, 180, 200, 50)
            &&& !is_arrow(s)
            &&& rf_shown == rf ==> !(s is Clear)
        },
{
    reveal_with_fuel(entries_upto, 4);
    let f = frame_shapes(selected, rf_shown, selected, rf);
    let e = entries_upto(selected, 3);
    let r = radio_shapes(rf_shown, rf);
    assert(f =~= e + r);
    assert(e == entry_shapes(selected, 1) + entry_shapes(selected, 2) + entry_shapes(selected, 3));
    assert forall|i: int| 0 <= i < f.len() implies {
        let s = #[trigger] f[i];
        &&& s != clear(1, 10, 30, 130)
        &&& s != clear(20, 180, 200, 50)
        &&& !is_arrow(s)
        &&& rf_shown == rf ==> !(s is Clear)
    } by {
        if i < e.len() {
            assert(f[i] == e[i]);
        } else {
            assert(f[i] == r[i - e.len()]);
        }
    }
}

/// A menu line: a text drawn in the menu column.
pub open spec fn is_menu_line(s: Shape) -> bool {
    s matches Shape::Text { x, .. } && x == 40
}

pub open spec fn menu_line_pred() -> spec_fn(Shape) -> bool {
    |s: Shape| is_menu_line(s)
}

/// The menu lines of a list of shapes, in order.
pub open spec fn menu_lines(shapes: Seq<Shape>) -> Seq<Shape> {
    shapes.filter(menu_line_pred())
}

/// Style of the menu line of entry `pos`: highlighted when it is the selection.
pub open spec fn entry_style(selected: usize, pos: int) -> TextStyle {
    if selected == pos {
        TextStyle::Highlight
    } else {
        TextStyle::Plain
    }
}

proof fn lemma_filter_of_parts<A>(a: Seq<A>, e1: Seq<A>, e2: Seq<A>, e3: Seq<A>, r: Seq<A>, l1: A, l2: A, l3: A, p: spec_fn(A) -> bool)
    requires
        a.filter(p) == Seq::<A>::empty(),
        e1.filter(p) == seq![l1],
        e2.filter(p) == seq![l2],
        e3.filter(p) == seq![l3],
        r.filter(p) == Seq::<A>::empty(),
    ensures
        (a + (e1 + e2 + e3) + r).filter(p) == seq![l1, l2, l3],
{
    Seq::filter_distributes_over_add(a + (e1 + e2 + e3), r, p);
    Seq::filter_distributes_over_add(a, e1 + e2 + e3, p);
    Seq::filter_distributes_over_add(e1 + e2, e3, p);
    Seq::filter_distributes_over_add(e1, e2, p);
    assert((e1 + e2).filter(p) =~= seq![l1, l2]);
    assert((e1 + e2 + e3).filter(p) =~= seq![l1, l2, l3]);
    assert((a + (e1 + e2 + e3) + r).filter(p) =~= seq![l1, l2, l3]);
}

proof fn lemma_entries_split(selected: usize)
    ensures
        entries_upto(selected, 3) == entry_shapes(selected, 1) + entry_shapes(selected, 2) + entry_shapes(selected, 3),
{
    reveal_with_fuel(entries_upto, 4);
    assert(entries_upto(selected, 0) =~= Seq::<Shape>::empty());
    assert(entries_upto(selected, 1) =~= entry_shapes(selected, 1));
}

proof fn lemma_selection_has_no_menu_line(shown: usize, selected: usize)
    ensures
        selection_shapes(shown, selected).filter(menu_line_pred()) == Seq::<Shape>::empty(),
{
    reveal_with_fuel(Seq::filter, 4);
    assert(selection_shapes(shown, selected).filter(menu_line_pred()) =~= Seq::<Shape>::empty());
}

proof fn lemma_radio_has_no_menu_line(rf_shown: bool, rf: bool)
    ensures
        radio_shapes(rf_shown, rf).filter(menu_line_pred()) == Seq::<Shape>::empty(),
{
    let p = menu_line_pred();
    let a = seq![
        rule(300),
        label("RF-DEVICE:"@, 20, 340, TextStyle::Plain),
        status_shape(rf_shown),
        rule(360),
    ];
    let b = if rf_shown != rf {
        seq![clear(200, 315, 300, 25)]
    } else {
        Seq::empty()
    };
    let c = seq![label("UART READ:"@, 20, 390, TextStyle::Plain)];
    Seq::filter_distributes_over_add(a + b, c, p);
    Seq::filter_distributes_over_add(a, b, p);
    assert(a.filter(p) =~= Seq::<Shape>::empty()) by {
        reveal_with_fuel(Seq::filter, 5);
    }
    assert(b.filter(p) =~= Seq::<Shape>::empty()) by {
        reveal_with_fuel(Seq::filter, 2);
    }
    assert(c.filter(p) =~= Seq::<Shape>::empty()) by {
        reveal_with_fuel(Seq::filter, 2);
    }
    assert(radio_shapes(rf_shown, rf).filter(p) =~= Seq::<Shape>::empty());
}

proof fn lemma_entry_menu_line(selected: usize, pos: int)
    requires
        1 <= pos <= 3,
    ensures
        entry_shapes(selected, pos).filter(menu_line_pred())
            == seq![label(entry_name(pos), 40, entry_y(pos) as i32, entry_style(selected, pos))],
{
    reveal_with_fuel(Seq::filter, 4);
    assert(entry_shapes(selected, pos).filter(menu_line_pred())
        =~= seq![label(entry_name(pos), 40, entry_y(pos) as i32, entry_style(selected, pos))]);
}

/// Every refresh draws exactly one menu line per entry, in order, each named
/// after its entry at the entry's height, highlighted exactly when the entry is
/// the selection: at most one line is highlighted, and none when the selection
/// is not an entry.
pub proof fn lemma_menu_lines(shown: usize, rf_shown: bool, selected: usize, rf: bool)
    ensures
        menu_lines(frame_shapes(shown, rf_shown, selected, rf)) == seq![
            (Shape::Text { text: "1 MENU"@, x: 40, y: 45, style: if selected == 1 { TextStyle::Highlight } else { TextStyle::Plain } }),
            (Shape::Text { text: "2 MENU"@, x: 40, y: 75, style: if selected == 2 { TextStyle::Highlight } else { TextStyle::Plain } }),
            (Shape::Text { text: "3 MENU"@, x: 40, y: 105, style: if selected == 3 { TextStyle::Highlight } else { TextStyle::Plain } }),
        ],
{
    let p = menu_line_pred();
    lemma_entries_split(selected);
    lemma_selection_has_no_menu_line(shown, selected);
    lemma_radio_has_no_menu_line(rf_shown, rf);
    lemma_entry_menu_line(selected, 1);
    lemma_entry_menu_line(selected, 2);
    lemma_entry_menu_line(selected, 3);
    lemma_filter_of_parts(
        selection_shapes(shown, selected),
        entry_shapes(selected, 1),
        entry_shapes(selected, 2),
        entry_shapes(selected, 3),
        radio_shapes(rf_shown, rf),
        label(entry_name(1), 40, 45, entry_style(selected, 1)),
        label(entry_name(2), 40, 75, entry_style(selected, 2)),
        label(entry_name(3), 40, 105, entry_style(selected, 3)),
        p,
    );
}

/// A shape that is a menu line (a text at x = 40) is highlighted exactly when it
/// stands at the height of the selected entry's line.
pub open spec fn menu_line_marked_as_selected(s: Shape, selected: usize) -> bool {
    match s {
        Shape::Text { x, y, style, .. } => x == 40 ==> (
            (style == TextStyle::Highlight) <==> (1 <= selected <= 3 && y == entry_y(selected as int))),
        _ => true,
    }
}

/// On every refresh, a menu line is highlighted exactly when it is the line of
/// the selected entry.
pub proof fn lemma_only_selected_highlighted(shown: usize, rf_shown: bool, selected: usize, rf: bool)
    ensures
        forall|i: int| 0 <= i < frame_shapes(shown, rf_shown, selected, rf).len() ==> (
            menu_line_marked_as_selected(#[trigger] frame_shapes(shown, rf_shown, selected, rf)[i], selected)),
{
    reveal_with_fuel(entries_upto, 4);
    let f = frame_shapes(shown, rf_shown, selected, rf);
    let head = if shown != selected {
        seq![
            clear(1, 10, 30, 130),
            clear(20, 180, 200, 50),
            label("->"@, 1, arrow_y(selected) as i32, TextStyle::Highlight),
        ]
    } else {
        Seq::empty()
    };
    let e1 = entry_shapes(selected, 1);
    let e2 = entry_shapes(selected, 2);
    let e3 = entry_shapes(selected, 3);
    let tail = seq![
        rule(300),
        label("RF-DEVICE:"@, 20, 340, TextStyle::Plain),
        label(if rf_shown { "ENABLE"@ } else { "DISABLE"@ }, 200, 340, TextStyle::Plain),
        rule(360),
    ] + (if rf_shown != rf {
        seq![clear(200, 315, 300, 25)]
    } else {
        Seq::empty()
    }) + seq![label("UART READ:"@, 20, 390, TextStyle::Plain)];
    assert(f =~= head + e1 + e2 + e3 + tail);
    assert forall|i: int| 0 <= i < f.len() implies (
        menu_line_marked_as_selected(#[trigger] f[i], selected)) by {
        let h = head.len() as int;
        let a = h + e1.len();
        let b = a + e2.len();
        let c = b + e3.len();
        if i < h {
            assert(f[i] == head[i]);
        } else if i < a {
            assert(f[i] == e1[i - h]);
        } else if i < b {
            assert(f[i] == e2[i - a]);
        } else if i < c {
            assert(f[i] == e3[i - b]);
        } else {
            assert(f[i] == tail[i - c]);
        }
    }
}

/// A line typed on the UART console that fits in a message and ends with a
/// carriage return reaches the screen as exactly the characters typed.
pub proof fn lemma_typed_line_is_shown(typed: Seq<u8>)
    requires
        line_content(typed),
        typed.len() <= MESSAGE_CAP,
    ensures
        line_feed(Seq::empty(), typed.push(CARRIAGE_RETURN)) == (Seq::<u8>::empty(), seq![typed]),
        valid_utf8(typed),
        message_shapes(decode_utf8(typed)) == message_shapes(ascii_chars(typed)),
{
    lemma_line_handed_over(typed);
    assert forall|i: int| 0 <= i < typed.len() implies is_ascii_byte(#[trigger] typed[i]) by {}
    lemma_ascii_decodes(typed);
}

/// Where a refresh draws the radio status: the only text at x = 200 is the
/// status of the state the previous refresh saw, and the only clear at x = 200
/// is the one drawn when the radio state changed.
proof fn lemma_radio_column(shown: usize, rf_shown: bool, selected: usize, rf: bool)
    ensures
        frame_shapes(shown, rf_shown, selected, rf).contains(status_shape(rf_shown)),
        forall|i: int| 0 <= i < frame_shapes(shown, rf_shown, selected, rf).len() ==> {
            let s = #[trigger] frame_shapes(shown, rf_shown, selected, rf)[i];
            &&& (s matches Shape::Text { x, .. } && x == 200) ==> s == status_shape(rf_shown)
            &&& (s matches Shape::Clear { x, .. } && x == 200) ==> s == clear(200, 315, 300, 25) && rf_shown != rf
        },
        (rf_shown != rf) ==> frame_shapes(shown, rf_shown, selected, rf).contains(clear(200, 315, 300, 25)),
{
    lemma_entries_split(selected);
    let f = frame_shapes(shown, rf_shown, selected, rf);
    let a = selection_shapes(shown, selected);
    let e = entries_upto(selected, 3);
    let r = radio_shapes(rf_shown, rf);
    assert(f =~= a + e + r);
    let n: int = (a.len() + e.len()) as int;
    assert(f[n + 2] == status_shape(rf_shown));
    if rf_shown != rf {
        assert(f[n + 4] == clear(200, 315, 300, 25));
    }
    assert forall|i: int| 0 <= i < f.len() implies {
        let s = #[trigger] f[i];
        &&& (s matches Shape::Text { x, .. } && x == 200) ==> s == status_shape(rf_shown)
        &&& (s matches Shape::Clear { x, .. } && x == 200) ==> s == clear(200, 315, 300, 25) && rf_shown != rf
    } by {
        if i < a.len() {
            assert(f[i] == a[i]);
        } else if i < n {
            assert(f[i] == e[i - a.len()]);
            let e1 = entry_shapes(selected, 1);
            let e2 = entry_shapes(selected, 2);
            let k = i - a.len();
            if k < e1.len() {
                assert(e[k] == e1[k]);
            } else if k < e1.len() + e2.len() {
                assert(e[k] == e2[k - e1.len()]);
            } else {
                assert(e[k] == entry_shapes(selected, 3)[k - e1.len() - e2.len()]);
            }
        } else {
            assert(f[i] == r[i - n]);
        }
    }
}

/// The display state before refresh `k` of a run of refreshes given the
/// (selection, radio state) readings `inputs`: the initial state before the
/// first one, and afterwards the readings the previous refresh was given, which
/// `render_frame` remembers.
pub open spec fn state_before(init: (usize, bool), inputs: Seq<(usize, bool)>, k: int) -> (usize, bool) {
    if k == 0 {
        init
    } else {
        inputs[k - 1]
    }
}

/// The shapes of refresh `k` of a run of refreshes.
pub open spec fn frame_at(init: (usize, bool), inputs: Seq<(usize, bool)>, k: int) -> Seq<Shape> {
    frame_shapes(state_before(init, inputs, k).0, state_before(init, inputs, k).1, inputs[k].0, inputs[k].1)
}

/// Some refresh before refresh `k` read the radio as set.
pub open spec fn set_before(inputs: Seq<(usize, bool)>, k: int) -> bool {
    exists|j: int| 0 <= j < k && #[trigger] inputs[j].1
}

/// Radio readings that, once set, stay set (the radio task only ever sets the state).
pub open spec fn readings_latch(inputs: Seq<(usize, bool)>) -> bool {
    forall|i: int, j: int| 0 <= i <= j < inputs.len() && #[trigger] inputs[i].1 ==> #[trigger] inputs[j].1
}

/// Over a run of refreshes that starts with the radio shown as off and whose
/// radio readings never fall back, refresh `k` shows ENABLE exactly when some
/// earlier refresh read the radio as set, and DISABLE otherwise; the radio line
/// is cleared exactly on the refresh whose reading differs from the one the
/// previous refresh remembered. So the refresh that first reads the state as
/// set still shows DISABLE and clears it, and once ENABLE is shown, DISABLE
/// never comes back.
pub proof fn lemma_status_follows_radio(init: (usize, bool), inputs: Seq<(usize, bool)>, k: int)
    requires
        !init.1,
        readings_latch(inputs),
        0 <= k < inputs.len(),
    ensures
        frame_at(init, inputs, k).contains(status_shape(set_before(inputs, k))),
        !frame_at(init, inputs, k).contains(status_shape(!set_before(inputs, k))),
        frame_at(init, inputs, k).contains(clear(200, 315, 300, 25)) <==> (set_before(inputs, k) != inputs[k].1),
        status_shape(true) == (Shape::Text { text: "ENABLE"@, x: 200, y: 340, style: TextStyle::Plain }),
        status_shape(false) == (Shape::Text { text: "DISABLE"@, x: 200, y: 340, style: TextStyle::Plain }),
{
    let st = state_before(init, inputs, k);
    let f = frame_at(init, inputs, k);
    assert(st.1 == set_before(inputs, k)) by {
        if k > 0 {
            if set_before(inputs, k) {
                let j = choose|j: int| 0 <= j < k && #[trigger] inputs[j].1;
                assert(inputs[j].1 ==> inputs[k - 1].1);
            } else {
                assert(!inputs[k - 1].1);
            }
        }
    }
    lemma_radio_column(st.0, st.1, inputs[k].0, inputs[k].1);
    assert(status_shape(true) != status_shape(false)) by {
        reveal_strlit("ENABLE");
        reveal_strlit("DISABLE");
        assert("ENABLE"@.len() != "DISABLE"@.len());
    }
    if f.contains(status_shape(!st.1)) {
        let i = choose|i: int| 0 <= i < f.len() && f[i] == status_shape(!st.1);
        assert(f[i] == status_shape(!st.1));
    }
    if f.contains(clear(200, 315, 300, 25)) {
        let i = choose|i: int| 0 <= i < f.len() && f[i] == clear(200, 315, 300, 25);
        assert(f[i] == clear(200, 315, 300, 25));
    }
}

/// The menu line drawn highlighted at height `y`.
pub open spec fn highlighted_menu_line_at(s: Shape, y: i32) -> bool {
    s matches Shape::Text { x, y: sy, style, .. } && x == 40 && sy == y && style == TextStyle::Highlight
}

/// When the selection changed, the arrow is drawn third, at x = 1 on the row
/// `30 * selection + 15` of the selected entry, whatever entry was shown
/// before; and it stands on the row of the highlighted menu line.
pub proof fn lemma_arrow_on_selected_row(shown: usize, other: usize, rf_shown: bool, selected: usize, rf: bool)
    requires
        shown != selected,
        other != selected,
        1 <= selected <= 3,
    ensures
        frame_shapes(shown, rf_shown, selected, rf)[2] == (Shape::Text {
            text: "->"@,
            x: 1,
            y: (30 * selected + 15) as i32,
            style: TextStyle::Highlight,
        }),
        frame_shapes(shown, rf_shown, selected, rf)[2] == frame_shapes(other, rf_shown, selected, rf)[2],
        exists|k: int| 0 <= k < frame_shapes(shown, rf_shown, selected, rf).len()
            && highlighted_menu_line_at(#[trigger] frame_shapes(shown, rf_shown, selected, rf)[k], (30 * selected + 15) as i32),
{
    lemma_entries_split(selected);
    let f = frame_shapes(shown, rf_shown, selected, rf);
    let a = selection_shapes(shown, selected);
    let e1 = entry_shapes(selected, 1);
    let e2 = entry_shapes(selected, 2);
    let e3 = entry_shapes(selected, 3);
    let r = radio_shapes(rf_shown, rf);
    assert(f =~= a + (e1 + e2 + e3) + r);
    assert(frame_shapes(other, rf_shown, selected, rf) =~= selection_shapes(other, selected) + (e1 + e2 + e3) + r);
    let k: int = if selected == 1 {
        3
    } else if selected == 2 {
        (3 + e1.len()) as int
    } else {
        (3 + e1.len() + e2.len()) as int
    };
    assert(highlighted_menu_line_at(f[k], (30 * selected + 15) as i32));
}

/// When the selection changed to an entry, the description area is erased
/// before any description is drawn: the erase comes second, and every text
/// drawn at the description's place comes after it; the selected entry's
/// description is drawn there.
pub proof fn lemma_description_erased_first(shown: usize, rf_shown: bool, selected: usize, rf: bool)
    requires
        shown != selected,
        1 <= selected <= 3,
    ensures
        frame_shapes(shown, rf_shown, selected, rf)[1] == (Shape::Clear { x: 20, y: 180, width: 200, height: 50 }),
        forall|j: int| 0 <= j < frame_shapes(shown, rf_shown, selected, rf).len()
            && (#[trigger] frame_shapes(shown, rf_shown, selected, rf)[j] matches Shape::Text { x, y, .. } && x == 20 && y == 200)
            ==> 1 < j,
        exists|j: int| 0 <= j < frame_shapes(shown, rf_shown, selected, rf).len()
            && #[trigger] frame_shapes(shown, rf_shown, selected, rf)[j] == (Shape::Text {
                text: if selected == 1 { "SOMEEEEE"@ } else if selected == 2 { "TWOOOOOOOO"@ } else { "THREEEE"@ },
                x: 20,
                y: 200,
                style: TextStyle::Plain,
            }),
{
    lemma_entries_split(selected);
    let f = frame_shapes(shown, rf_shown, selected, rf);
    let a = selection_shapes(shown, selected);
    let e1 = entry_shapes(selected, 1);
    let e2 = entry_shapes(selected, 2);
    let e3 = entry_shapes(selected, 3);
    let r = radio_shapes(rf_shown, rf);
    assert(f =~= a + (e1 + e2 + e3) + r);
    let k: int = if selected == 1 {
        5
    } else if selected == 2 {
        (5 + e1.len()) as int
    } else {
        (5 + e1.len() + e2.len()) as int
    };
    assert(f[k] == (Shape::Text { text: entry_description(selected as int), x: 20, y: 200, style: TextStyle::Plain }));
    assert forall|j: int| 0 <= j < f.len()
        && (#[trigger] f[j] matches Shape::Text { x, y, .. } && x == 20 && y == 200) implies 1 < j by {
        assert(f[0] == a[0]);
        assert(f[1] == a[1]);
    }
}

/// A message is shown whole: the second of the two shapes is the complete
/// message text under UART READ, after the erase of that area.
pub proof fn lemma_message_shown_whole(text: Seq<char>)
    ensures
        message_shapes(text).len() == 2,
        message_shapes(text)[0] == (Shape::Clear { x: 1, y: 395, width: 500, height: 40 }),
        message_shapes(text)[1] == (Shape::Text { text: text, x: 20, y: 420, style: TextStyle::Plain }),
{
}

} // verus!
