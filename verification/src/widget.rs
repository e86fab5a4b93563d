//! What the widgets of the display show and how they react to the mouse:
//! the texts of node and device lines, where dropdowns go, the mouse areas
//! of a dropdown and which area a click reaches, how a peak meter's cells
//! split, and how far the help list scrolls. Styling and drawing is left to
//! the terminal front end.

use vstd::prelude::*;

use crate::config::char_set::CharSet;
use crate::config::help::byte_len;
use crate::device_kind::DeviceKind;
use crate::object::ObjectId;
use crate::object_list::ObjectList;
use crate::tabs::ListAction;
use crate::truncate::{shortened, with_ellipses};
use crate::view;
use crate::view::Target;

verus! {

/// A rectangle of terminal cells.
#[derive(Debug, Clone, Copy, PartialEq, Eq, Structural)]
pub struct Area {
    pub x: u16,
    pub y: u16,
    pub width: u16,
    pub height: u16,
}

/// The entries that a dropdown shows at once.
pub const DROPDOWN_ENTRIES: usize = 5;

/// `a + b`, or the largest `u16` when that is larger.
pub open spec fn add_u16(a: u16, b: int) -> u16 {
    if a + b > u16::MAX {
        u16::MAX
    } else {
        (a + b) as u16
    }
}

/// `a - b`, or zero when that is negative.
pub open spec fn sub_u16(a: u16, b: int) -> u16 {
    if a - b < 0 {
        0
    } else {
        (a - b) as u16
    }
}

impl Area {
    /// The column just right of the area.
    pub open spec fn right_edge(self) -> u16 {
        add_u16(self.x, self.width as int)
    }

    pub fn right(&self) -> (r: u16)
        ensures
            r == self.right_edge(),
    {
        self.x.saturating_add(self.width)
    }

    /// The row just below the area.
    pub open spec fn bottom_edge(self) -> u16 {
        add_u16(self.y, self.height as int)
    }

    /// The area moved and shrunk to lie within `other`, as the terminal
    /// library clamps a rectangle: as wide and as high as both allow, and
    /// moved right or down onto `other`, or left or up until it ends where
    /// `other` ends.
    pub open spec fn clamped(self, other: Area) -> Area {
        let width = if self.width < other.width {
            self.width
        } else {
            other.width
        };
        let height = if self.height < other.height {
            self.height
        } else {
            other.height
        };
        let max_x = sub_u16(other.right_edge(), width as int);
        let max_y = sub_u16(other.bottom_edge(), height as int);
        Area {
            x: if self.x < other.x {
                other.x
            } else if self.x > max_x {
                max_x
            } else {
                self.x
            },
            y: if self.y < other.y {
                other.y
            } else if self.y > max_y {
                max_y
            } else {
                self.y
            },
            width,
            height,
        }
    }

    /// Clamping does not fail: `other` leaves room to place the clamped
    /// width and height from its own left and top edges (it fails only where
    /// `other` reaches the last column or row).
    pub open spec fn clamps_into(self, other: Area) -> bool {
        let width = if self.width < other.width {
            self.width
        } else {
            other.width
        };
        let height = if self.height < other.height {
            self.height
        } else {
            other.height
        };
        other.x <= sub_u16(other.right_edge(), width as int) && other.y <= sub_u16(
            other.bottom_edge(),
            height as int,
        )
    }

    pub fn clamp(&self, other: &Area) -> (c: Area)
        requires
            self.clamps_into(*other),
        ensures
            c == self.clamped(*other),
    {
        let width = if self.width < other.width {
            self.width
        } else {
            other.width
        };
        let height = if self.height < other.height {
            self.height
        } else {
            other.height
        };
        let max_x = other.x.saturating_add(other.width).saturating_sub(width);
        let max_y = other.y.saturating_add(other.height).saturating_sub(height);
        let x = if self.x < other.x {
            other.x
        } else if self.x > max_x {
            max_x
        } else {
            self.x
        };
        let y = if self.y < other.y {
            other.y
        } else if self.y > max_y {
            max_y
        } else {
            self.y
        };
        Area { x, y, width, height }
    }

    /// Whether the cell at column `x` and row `y` lies in the area.
    pub open spec fn holds(self, x: u16, y: u16) -> bool {
        self.x <= x < self.right_edge() && self.y <= y < self.bottom_edge()
    }

    pub fn contains(&self, x: u16, y: u16) -> (inside: bool)
        ensures
            inside == self.holds(x, y),
    {
        self.x <= x && x < self.x.saturating_add(self.width) && self.y <= y && y < self.y.saturating_add(
            self.height,
        )
    }
}

/// A mouse button.
#[derive(Debug, Clone, Copy, PartialEq, Eq, Structural)]
pub enum MouseButton {
    Left,
    Right,
    Middle,
}

/// What the mouse did.
#[derive(Debug, Clone, Copy, PartialEq, Eq, Structural)]
pub enum MouseKind {
    Down(MouseButton),
    Up(MouseButton),
    Drag(MouseButton),
    Moved,
    ScrollDown,
    ScrollUp,
    ScrollLeft,
    ScrollRight,
}

/// An area of the screen that reacts to some kinds of mouse event with
/// actions.
pub struct MouseArea<A> {
    pub area: Area,
    pub kinds: Vec<MouseKind>,
    pub actions: Vec<A>,
}

/// Whether a mouse area reacts to `kind` at column `x` and row `y`.
pub open spec fn reacts<A>(m: MouseArea<A>, x: u16, y: u16, kind: MouseKind) -> bool {
    m.area.holds(x, y) && m.kinds@.contains(kind)
}

fn has_kind(kinds: &Vec<MouseKind>, kind: MouseKind) -> (found: bool)
    ensures
        found == kinds@.contains(kind),
{
    let mut i: usize = 0;
    while i < kinds.len()
        invariant
            i <= kinds@.len(),
            forall|j: int| 0 <= j < i ==> kinds@[j] != kind,
        decreases kinds.len() - i,
    {
        if kinds[i] == kind {
            return true;
        }
        i += 1;
    }
    false
}

/// The mouse area that a mouse event goes to: of those that react to it,
/// the one added last, which is drawn on top.
pub fn area_hit<A>(areas: &Vec<MouseArea<A>>, x: u16, y: u16, kind: MouseKind) -> (hit: Option<usize>)
    ensures
        match hit {
            Some(i) => i < areas@.len() && reacts(areas@[i as int], x, y, kind) && forall|j: int|
                i < j < areas@.len() ==> !reacts(#[trigger] areas@[j], x, y, kind),
            None => forall|j: int| 0 <= j < areas@.len() ==> !reacts(#[trigger] areas@[j], x, y, kind),
        },
{
    let mut i: usize = areas.len();
    while i > 0
        invariant
            i <= areas@.len(),
            forall|j: int| i <= j < areas@.len() ==> !reacts(#[trigger] areas@[j], x, y, kind),
        decreases i,
    {
        i -= 1;
        let m = &areas[i];
        if m.area.contains(x, y) && has_kind(&m.kinds, kind) {
            return Some(i);
        }
    }
    None
}

/// Whether a node is the default sink or source that its list sets.
pub open spec fn is_default_node(node: view::NodeView, device_kind: Option<DeviceKind>) -> bool {
    match device_kind {
        Some(DeviceKind::Sink) => node.is_default_sink,
        Some(DeviceKind::Source) => node.is_default_source,
        None => false,
    }
}

/// The title of a node in a list: in a list of sinks or sources, its title
/// as a sink or source when it has one.
pub open spec fn shown_node_title(node: view::NodeView, device_kind: Option<DeviceKind>) -> Seq<char> {
    match (device_kind, node.title_source_sink) {
        (Some(_), Some(t)) => t,
        _ => node.title,
    }
}

pub fn is_default(node: &view::Node, device_kind: Option<DeviceKind>) -> (default: bool)
    ensures
        default == is_default_node(node@, device_kind),
{
    match device_kind {
        Some(DeviceKind::Sink) => node.is_default_sink,
        Some(DeviceKind::Source) => node.is_default_source,
        None => false,
    }
}

pub fn node_title<'a>(node: &'a view::Node, device_kind: Option<DeviceKind>) -> (title: &'a String)
    ensures
        title@ == shown_node_title(node@, device_kind),
{
    match (device_kind, &node.title_source_sink) {
        (Some(_), Some(title_source_sink)) => title_source_sink,
        _ => &node.title,
    }
}

/// The texts of a list of spans.
pub open spec fn span_texts(spans: Seq<String>) -> Seq<Seq<char>> {
    spans.map_values(|s: String| s@)
}

/// The spans of a node's target line: the title of its target, after the
/// default mark and a space when it follows the default.
pub fn target_line(char_set: &CharSet, node: &view::Node) -> (spans: Vec<String>)
    ensures
        span_texts(spans@) == if node.target == Some(Target::Default) {
            seq![char_set.default_target@, " "@, node.target_title@]
        } else {
            seq![node.target_title@]
        },
{
    let mut spans: Vec<String> = Vec::new();
    if node.target == Some(Target::Default) {
        spans.push(char_set.default_target.clone());
        spans.push(String::from_str(" "));
    }
    spans.push(node.target_title.clone());
    proof {
        reveal_strlit(" ");
        assert(span_texts(spans@) =~= if node.target == Some(Target::Default) {
            seq![char_set.default_target@, " "@, node.target_title@]
        } else {
            seq![node.target_title@]
        });
    }
    spans
}

/// The spans of a node's title line: the default mark when the node is the
/// default (a space otherwise), a space, and its title shortened to `width`
/// columns.
pub fn title_line(char_set: &CharSet, node: &view::Node, device_kind: Option<DeviceKind>, width: usize) -> (spans: Vec<String>)
    ensures
        span_texts(spans@) == seq![
            if is_default_node(node@, device_kind) {
                char_set.default_endpoint@
            } else {
                " "@
            },
            " "@,
            shortened(shown_node_title(node@, device_kind), width as int),
        ],
{
    let mark = if is_default(node, device_kind) {
        char_set.default_endpoint.clone()
    } else {
        String::from_str(" ")
    };
    let title = with_ellipses(node_title(node, device_kind).as_str(), width);
    let mut spans: Vec<String> = Vec::new();
    spans.push(mark);
    spans.push(String::from_str(" "));
    spans.push(title);
    proof {
        reveal_strlit(" ");
        assert(span_texts(spans@) =~= seq![
            if is_default_node(node@, device_kind) {
                char_set.default_endpoint@
            } else {
                " "@
            },
            " "@,
            shortened(shown_node_title(node@, device_kind), width as int),
        ]);
    }
    spans
}

/// The longest of the first `n` target titles, in UTF-8 bytes.
pub open spec fn longest_title(targets: Seq<(Target, String)>, n: int) -> usize
    decreases n,
{
    if n <= 0 {
        0
    } else {
        let rest = longest_title(targets, n - 1);
        let here = byte_len(targets[n - 1].1@);
        if here > rest {
            here
        } else {
            rest
        }
    }
}

/// The width and height of a dropdown of targets: the longest title with
/// two columns of border and two of selection mark, and up to
/// `DROPDOWN_ENTRIES` entries with two rows of border.
pub open spec fn dropdown_size(targets: Seq<(Target, String)>) -> (u16, u16) {
    let longest = longest_title(targets, targets.len() as int);
    let wide: usize = if longest + 4 > usize::MAX {
        usize::MAX
    } else {
        (longest + 4) as usize
    };
    let entries = if targets.len() < DROPDOWN_ENTRIES {
        targets.len()
    } else {
        DROPDOWN_ENTRIES as nat
    };
    (wide as u16, (entries + 2) as u16)
}

fn longest_target_title(targets: &Vec<(Target, String)>) -> (longest: usize)
    ensures
        longest == longest_title(targets@, targets@.len() as int),
{
    let mut longest: usize = 0;
    let mut i: usize = 0;
    while i < targets.len()
        invariant
            i <= targets@.len(),
            longest == longest_title(targets@, i as int),
        decreases targets.len() - i,
    {
        let here = targets[i].1.as_str().len();
        assert(here == byte_len(targets@[i as int].1@));
        if here > longest {
            longest = here;
        }
        i += 1;
    }
    longest
}

fn dropdown_size_of(targets: &Vec<(Target, String)>) -> (size: (u16, u16))
    ensures
        size == dropdown_size(targets@),
{
    let longest = longest_target_title(targets);
    let width = longest.saturating_add(4) as u16;
    let entries: usize = if targets.len() < DROPDOWN_ENTRIES {
        targets.len()
    } else {
        DROPDOWN_ENTRIES
    };
    (width, (entries + 2) as u16)
}

/// The cells of a peak meter `total` cells wide with `lit` cells lit, of
/// which those past `zero` show overload: how many are active, overloaded
/// and inactive.
pub open spec fn meter_split(lit: usize, zero: usize, total: usize) -> (usize, usize, usize) {
    let active = if lit < zero {
        lit
    } else {
        zero
    };
    let overload = if lit > zero {
        (lit - zero) as usize
    } else {
        0
    };
    let inactive = if total > active + overload {
        (total - active - overload) as usize
    } else {
        0
    };
    (active, overload, inactive)
}

pub fn meter_segments(lit: usize, zero: usize, total: usize) -> (segments: (usize, usize, usize))
    ensures
        segments == meter_split(lit, zero, total),
{
    let active = if lit < zero {
        lit
    } else {
        zero
    };
    let overload = lit.saturating_sub(zero);
    let inactive = total.saturating_sub(active).saturating_sub(overload);
    (active, overload, inactive)
}

/// A left click.
pub open spec fn click() -> Seq<MouseKind> {
    seq![MouseKind::Down(MouseButton::Left)]
}

/// A mouse area as plain values.
pub open spec fn area_view<A>(m: MouseArea<A>) -> (Area, Seq<MouseKind>, Seq<A>) {
    (m.area, m.kinds@, m.actions@)
}

/// The area one row high at row `row`, over the columns of `a`.
pub open spec fn row_of(a: Area, row: u16) -> Area {
    Area { x: a.x, y: row, width: a.width, height: 1 }
}

/// The rows of a dropdown between its borders that show targets, from the
/// first shown (`offset`), each setting its target when clicked.
pub open spec fn target_rows(targets: Seq<(Target, String)>, dropdown: Area, offset: usize) -> Seq<
    (Area, Seq<MouseKind>, Seq<ListAction>),
> {
    let inner = dropdown.height - 2;
    let shown = if offset >= targets.len() {
        0
    } else if targets.len() - offset < inner {
        targets.len() - offset
    } else {
        inner
    };
    Seq::new(
        shown as nat,
        |i: int|
            (
                row_of(dropdown, add_u16(add_u16(dropdown.y, 1), i)),
                click(),
                seq![ListAction::SetTarget(targets[offset + i].0)],
            ),
    )
}

/// The mouse areas of an open dropdown drawn in `dropdown` over the list in
/// `area`, its list scrolled to show `offset` first: a click elsewhere in
/// the list closes it, a click on its border does nothing, the top and
/// bottom borders scroll when entries lie beyond them, and a click on an
/// entry sets its target.
pub open spec fn dropdown_areas(
    targets: Seq<(Target, String)>,
    area: Area,
    dropdown: Area,
    offset: usize,
) -> Seq<(Area, Seq<MouseKind>, Seq<ListAction>)> {
    let inner: usize = if dropdown.height >= 2 {
        (dropdown.height - 2) as usize
    } else {
        0
    };
    let last = if offset + inner > usize::MAX {
        usize::MAX as int
    } else {
        offset + inner
    };
    seq![(area, click(), seq![ListAction::ClosePopup]), (dropdown, click(), seq![])] + (if offset > 0 {
        seq![(row_of(dropdown, dropdown.y), click(), seq![ListAction::ScrollUp])]
    } else {
        seq![]
    }) + (if last < targets.len() {
        seq![
            (
                row_of(dropdown, add_u16(dropdown.y, sub_u16(dropdown.height, 1) as int)),
                click(),
                seq![ListAction::ScrollDown],
            ),
        ]
    } else {
        seq![]
    }) + target_rows(targets, dropdown, offset)
}

fn clicked_area(area: Area, action: Option<ListAction>) -> (m: MouseArea<ListAction>)
    ensures
        area_view(m) == (area, click(), match action {
            Some(a) => seq![a],
            None => seq![],
        }),
{
    let mut kinds: Vec<MouseKind> = Vec::new();
    kinds.push(MouseKind::Down(MouseButton::Left));
    let mut actions: Vec<ListAction> = Vec::new();
    match action {
        Some(a) => actions.push(a),
        None => {},
    }
    proof {
        assert(kinds@ =~= click());
    }
    MouseArea { area, kinds, actions }
}

/// The mouse areas of the dropdown widget.
pub struct DropdownWidget;

impl DropdownWidget {
    /// The mouse areas of the open dropdown of `object_list`, drawn in
    /// `dropdown_area` clamped to the list in `area` (at least its two rows
    /// of border high), with the entry at `offset` shown first.
    pub fn mouse_areas(object_list: &ObjectList, area: Area, dropdown_area: Area, offset: usize) -> (areas: Vec<
        MouseArea<ListAction>,
    >)
        requires
            dropdown_area.clamps_into(area),
            dropdown_area.clamped(area).height >= 2,
        ensures
            areas@.map_values(|m: MouseArea<ListAction>| area_view(m)) == dropdown_areas(
                object_list.targets@,
                area,
                dropdown_area.clamped(area),
                offset,
            ),
    {
        let dropdown_area = dropdown_area.clamp(&area);
        let targets = &object_list.targets;
        let ghost head = seq![(area, click(), seq![ListAction::ClosePopup]), (dropdown_area, click(), seq![])];
        let mut areas: Vec<MouseArea<ListAction>> = Vec::new();
        areas.push(clicked_area(area, Some(ListAction::ClosePopup)));
        areas.push(clicked_area(dropdown_area, None));
        assert(areas@.map_values(|m: MouseArea<ListAction>| area_view(m)) =~= head);
        let ghost with_top = head + (if offset > 0 {
            seq![(row_of(dropdown_area, dropdown_area.y), click(), seq![ListAction::ScrollUp])]
        } else {
            seq![]
        });
        if offset > 0 {
            let top = Area { x: dropdown_area.x, y: dropdown_area.y, width: dropdown_area.width, height: 1 };
            areas.push(clicked_area(top, Some(ListAction::ScrollUp)));
        }
        assert(areas@.map_values(|m: MouseArea<ListAction>| area_view(m)) =~= with_top);
        let inner = (dropdown_area.height as usize).saturating_sub(2);
        let last = offset.saturating_add(inner);
        let ghost with_bottom = with_top + (if last < targets@.len() {
            seq![
                (
                    row_of(dropdown_area, add_u16(dropdown_area.y, sub_u16(dropdown_area.height, 1) as int)),
                    click(),
                    seq![ListAction::ScrollDown],
                ),
            ]
        } else {
            seq![]
        });
        if last < targets.len() {
            let y = dropdown_area.y.saturating_add(dropdown_area.height.saturating_sub(1));
            let bottom = Area { x: dropdown_area.x, y, width: dropdown_area.width, height: 1 };
            areas.push(clicked_area(bottom, Some(ListAction::ScrollDown)));
        }
        assert(areas@.map_values(|m: MouseArea<ListAction>| area_view(m)) =~= with_bottom);
        let ghost rows = target_rows(targets@, dropdown_area, offset);
        let rows_shown: u16 = dropdown_area.height - 2;
        let mut i: u16 = 0;
        while i < rows_shown
            invariant
                rows_shown == dropdown_area.height - 2,
                i <= rows_shown,
                rows == target_rows(targets@, dropdown_area, offset),
                areas@.map_values(|m: MouseArea<ListAction>| area_view(m)) == with_bottom + rows.take(
                    if i < rows.len() {
                        i as int
                    } else {
                        rows.len() as int
                    },
                ),
            decreases rows_shown - i,
        {
            if offset < targets.len() && i as usize <= targets.len() - offset - 1 {
                let target = targets[offset + i as usize].0;
                let y = dropdown_area.y.saturating_add(1).saturating_add(i);
                let row = Area { x: dropdown_area.x, y, width: dropdown_area.width, height: 1 };
                let ghost before = areas@.map_values(|m: MouseArea<ListAction>| area_view(m));
                areas.push(clicked_area(row, Some(ListAction::SetTarget(target))));
                proof {
                    assert(i < rows.len());
                    assert(rows.take(i + 1) =~= rows.take(i as int).push(rows[i as int]));
                    assert(areas@.map_values(|m: MouseArea<ListAction>| area_view(m)) =~= before.push(
                        area_view(areas@[areas@.len() - 1]),
                    ));
                }
            } else {
                proof {
                    assert(i >= rows.len());
                }
            }
            i += 1;
        }
        assert(rows.take(rows.len() as int) =~= rows);
        areas
    }
}

/// The mouse areas of an object list as a whole.
pub struct ObjectListWidget;

/// A list's own mouse areas: a click on the header moves up and one on the
/// footer moves down, and the wheel over the list moves up or down.
pub open spec fn list_areas(header: Area, list: Area, footer: Area) -> Seq<
    (Area, Seq<MouseKind>, Seq<ListAction>),
> {
    seq![
        (header, click(), seq![ListAction::ScrollUp]),
        (footer, click(), seq![ListAction::ScrollDown]),
        (list, seq![MouseKind::ScrollUp], seq![ListAction::ScrollUp]),
        (list, seq![MouseKind::ScrollDown], seq![ListAction::ScrollDown]),
    ]
}

fn one_area(area: Area, kind: MouseKind, action: ListAction) -> (m: MouseArea<ListAction>)
    ensures
        area_view(m) == (area, seq![kind], seq![action]),
{
    let mut kinds: Vec<MouseKind> = Vec::new();
    kinds.push(kind);
    let mut actions: Vec<ListAction> = Vec::new();
    actions.push(action);
    proof {
        assert(kinds@ =~= seq![kind]);
        assert(actions@ =~= seq![action]);
    }
    MouseArea { area, kinds, actions }
}

impl ObjectListWidget {
    /// The mouse areas of a list drawn with its header, list and footer
    /// areas.
    pub fn mouse_areas(header: Area, list: Area, footer: Area) -> (areas: Vec<MouseArea<ListAction>>)
        ensures
            areas@.map_values(|m: MouseArea<ListAction>| area_view(m)) == list_areas(header, list, footer),
    {
        let mut areas: Vec<MouseArea<ListAction>> = Vec::new();
        areas.push(one_area(header, MouseKind::Down(MouseButton::Left), ListAction::ScrollUp));
        areas.push(one_area(footer, MouseKind::Down(MouseButton::Left), ListAction::ScrollDown));
        areas.push(one_area(list, MouseKind::ScrollUp, ListAction::ScrollUp));
        areas.push(one_area(list, MouseKind::ScrollDown, ListAction::ScrollDown));
        assert(areas@.map_values(|m: MouseArea<ListAction>| area_view(m)) =~= list_areas(header, list, footer));
        areas
    }
}

/// The help popup.
pub struct HelpWidget;

/// Where the help list is scrolled to once the list area shows
/// `list_height` rows of `rows_total`: when fewer rows than fit are left
/// below `position`, the list is scrolled back so that its last row is at
/// the bottom.
pub open spec fn settled_position_spec(rows_total: usize, position: u16, list_height: u16) -> u16 {
    let left = if rows_total > position {
        rows_total - position
    } else {
        0
    };
    if left < list_height {
        let back = if rows_total > list_height {
            rows_total - list_height
        } else {
            0
        };
        if back > u16::MAX {
            u16::MAX
        } else {
            back as u16
        }
    } else {
        position
    }
}

impl HelpWidget {
    /// The columns the help popup takes besides its two columns of text:
    /// a border and two columns of padding on each side, and two columns
    /// between the columns of text.
    pub fn base_width() -> (w: usize)
        ensures
            w == 8,
    {
        1 * 2 + 2 * 2 + 2
    }

    pub fn settled_position(rows_total: usize, position: u16, list_height: u16) -> (settled: u16)
        ensures
            settled == settled_position_spec(rows_total, position, list_height),
    {
        let left = rows_total.saturating_sub(position as usize);
        if left < list_height as usize {
            let back = rows_total.saturating_sub(list_height as usize);
            if back > u16::MAX as usize {
                u16::MAX
            } else {
                back as u16
            }
        } else {
            position
        }
    }

    /// Whether rows lie above the shown ones, so that the top border shows
    /// that the list goes on.
    pub fn more_above(position: u16) -> (more: bool)
        ensures
            more == (position > 0),
    {
        position > 0
    }

    /// Whether rows lie below the shown ones.
    pub fn more_below(rows_total: usize, position: u16, list_height: u16) -> (more: bool)
        requires
            position + list_height <= u16::MAX,
        ensures
            more == (position + list_height < rows_total),
    {
        ((position + list_height) as usize) < rows_total
    }
}

/// What a mouse area over a node asks for: an action on the shown list, or
/// a change of the selected node's volume by this many hundredths.
#[derive(Debug, Clone, Copy, PartialEq, Eq, Structural)]
pub enum NodeAction {
    List(ListAction),
    RelativeVolume(i32),
}

/// The mouse areas of the node `id` drawn in `area`, with its target shown
/// in `header_right` and its volume label in `volume_label`: a click
/// selects it, a right click also makes it the default, scrolling left or
/// right also lowers or raises its volume by a hundredth, a click on the
/// target opens the dropdown, and one on the label mutes or unmutes it.
pub open spec fn node_areas(id: ObjectId, area: Area, header_right: Area, volume_label: Area) -> Seq<
    (Area, Seq<MouseKind>, Seq<NodeAction>),
> {
    let select = NodeAction::List(ListAction::SelectObject(id));
    seq![
        (area, click(), seq![select]),
        (area, seq![MouseKind::Down(MouseButton::Right)], seq![select, NodeAction::List(ListAction::SetDefault)]),
        (area, seq![MouseKind::ScrollLeft], seq![select, NodeAction::RelativeVolume(-1i32)]),
        (area, seq![MouseKind::ScrollRight], seq![select, NodeAction::RelativeVolume(1i32)]),
        (header_right, click(), seq![select, NodeAction::List(ListAction::OpenPopup)]),
        (volume_label, click(), seq![select, NodeAction::List(ListAction::ToggleMute)]),
    ]
}

fn node_area(area: Area, kind: MouseKind, actions: Vec<NodeAction>) -> (m: MouseArea<NodeAction>)
    ensures
        area_view(m) == (area, seq![kind], actions@),
{
    let mut kinds: Vec<MouseKind> = Vec::new();
    kinds.push(kind);
    MouseArea { area, kinds, actions }
}

/// A node in an object list.
pub struct NodeWidget;

impl NodeWidget {
    /// The rows that a node takes.
    pub fn height() -> (h: u16)
        ensures
            h == 3,
    {
        3
    }

    /// The rows between two nodes.
    pub fn spacing() -> (s: u16)
        ensures
            s == 2,
    {
        2
    }

    /// The mouse areas of the node `id`, drawn in `area` with its target in
    /// `header_right` and its volume label in `volume_label`.
    pub fn mouse_areas(id: ObjectId, area: Area, header_right: Area, volume_label: Area) -> (areas: Vec<
        MouseArea<NodeAction>,
    >)
        ensures
            areas@.map_values(|m: MouseArea<NodeAction>| area_view(m)) == node_areas(
                id,
                area,
                header_right,
                volume_label,
            ),
    {
        let select = NodeAction::List(ListAction::SelectObject(id));
        let left = MouseKind::Down(MouseButton::Left);
        let mut areas: Vec<MouseArea<NodeAction>> = Vec::new();
        areas.push(node_area(area, left, vec![select]));
        areas.push(
            node_area(
                area,
                MouseKind::Down(MouseButton::Right),
                vec![select, NodeAction::List(ListAction::SetDefault)],
            ),
        );
        areas.push(node_area(area, MouseKind::ScrollLeft, vec![select, NodeAction::RelativeVolume(-1)]));
        areas.push(node_area(area, MouseKind::ScrollRight, vec![select, NodeAction::RelativeVolume(1)]));
        areas.push(node_area(header_right, left, vec![select, NodeAction::List(ListAction::OpenPopup)]));
        areas.push(node_area(volume_label, left, vec![select, NodeAction::List(ListAction::ToggleMute)]));
        assert(areas@.map_values(|m: MouseArea<NodeAction>| area_view(m)) =~~= node_areas(
            id,
            area,
            header_right,
            volume_label,
        ));
        areas
    }

    /// Where the dropdown of the list's targets goes for a node in
    /// `object_area`: against the right edge of the list area, its top
    /// border on the row above the node.
    pub fn dropdown_area(object_list: &ObjectList, list_area: &Area, object_area: &Area) -> (area: Area)
        ensures
            ({
                let (width, height) = dropdown_size(object_list.targets@);
                area == (Area {
                    x: sub_u16(list_area.right_edge(), width as int),
                    y: sub_u16(object_area.y, 1),
                    width,
                    height,
                })
            }),
    {
        let (width, height) = dropdown_size_of(&object_list.targets);
        let x = list_area.right().saturating_sub(width);
        let y = object_area.y.saturating_sub(1);
        Area { x, y, width, height }
    }
}

/// The mouse areas of the device `id` drawn in `area` with its profile in
/// `target_area`: a click selects it, and one on the profile also opens the
/// dropdown.
pub open spec fn device_areas(id: ObjectId, area: Area, target_area: Area) -> Seq<
    (Area, Seq<MouseKind>, Seq<ListAction>),
> {
    seq![
        (area, click(), seq![ListAction::SelectObject(id)]),
        (target_area, click(), seq![ListAction::SelectObject(id), ListAction::OpenPopup]),
    ]
}

/// A device in an object list.
pub struct DeviceWidget;

impl DeviceWidget {
    /// The spans of a device's title line: its title after three spaces.
    pub fn title_line(device: &view::Device) -> (spans: Vec<String>)
        ensures
            span_texts(spans@) == seq!["   "@, device.title@],
    {
        let mut spans: Vec<String> = Vec::new();
        spans.push(String::from_str("   "));
        spans.push(device.title.clone());
        proof {
            reveal_strlit("   ");
            assert(span_texts(spans@) =~= seq!["   "@, device.title@]);
        }
        spans
    }

    /// The spans of a device's profile line: after four spaces, the
    /// dropdown mark, a space and the title of its profile.
    pub fn target_line(char_set: &CharSet, device: &view::Device) -> (spans: Vec<String>)
        ensures
            span_texts(spans@) == seq!["    "@, char_set.dropdown@, " "@, device.target_title@],
    {
        let mut spans: Vec<String> = Vec::new();
        spans.push(String::from_str("    "));
        spans.push(char_set.dropdown.clone());
        spans.push(String::from_str(" "));
        spans.push(device.target_title.clone());
        proof {
            reveal_strlit("    ");
            reveal_strlit(" ");
            assert(span_texts(spans@) =~= seq!["    "@, char_set.dropdown@, " "@, device.target_title@]);
        }
        spans
    }

    /// The mouse areas of the device `id`, drawn in `area` with its profile
    /// in `target_area`.
    pub fn mouse_areas(id: ObjectId, area: Area, target_area: Area) -> (areas: Vec<MouseArea<ListAction>>)
        ensures
            areas@.map_values(|m: MouseArea<ListAction>| area_view(m)) == device_areas(id, area, target_area),
    {
        let left = MouseKind::Down(MouseButton::Left);
        let mut areas: Vec<MouseArea<ListAction>> = Vec::new();
        areas.push(MouseArea { area, kinds: vec![left], actions: vec![ListAction::SelectObject(id)] });
        areas.push(
            MouseArea {
                area: target_area,
                kinds: vec![left],
                actions: vec![ListAction::SelectObject(id), ListAction::OpenPopup],
            },
        );
        assert(areas@.map_values(|m: MouseArea<ListAction>| area_view(m)) =~~= device_areas(id, area, target_area));
        areas
    }

    /// The rows that a device takes.
    pub fn height() -> (h: u16)
        ensures
            h == 3,
    {
        3
    }

    /// The rows between two devices.
    pub fn spacing() -> (s: u16)
        ensures
            s == 2,
    {
        2
    }

    /// Where the dropdown of the list's targets goes for a device in
    /// `object_area`: four columns into the list area, its first entry over
    /// the device's profile line.
    pub fn dropdown_area(object_list: &ObjectList, list_area: &Area, object_area: &Area) -> (area: Area)
        ensures
            ({
                let (width, height) = dropdown_size(object_list.targets@);
                area == (Area {
                    x: add_u16(list_area.x, 4),
                    y: add_u16(object_area.y, 1),
                    width,
                    height,
                })
            }),
    {
        let (width, height) = dropdown_size_of(&object_list.targets);
        let x = list_area.x.saturating_add(4);
        let y = object_area.y.saturating_add(1);
        Area { x, y, width, height }
    }
}

} // verus!
