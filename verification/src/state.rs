//! Identity counters, the selection state of the editor, and the record kept
//! for each shape.

use vstd::prelude::*;
use crate::consts::{DEFAULT_CAMERA_X_BITS, DEFAULT_CAMERA_Y_BITS};

verus! {

/// A single-precision number, held by its bit pattern. The library carries
/// such numbers from the editor to the renderer and never computes with them.
#[derive(Clone, Copy, Debug, PartialEq, Eq, Structural)]
pub struct Scalar {
    pub bits: u32,
}

/// A point or direction in the plane.
#[derive(Clone, Copy, Debug, PartialEq, Eq, Structural)]
pub struct Vector2 {
    pub x: Scalar,
    pub y: Scalar,
}

/// A point or direction in space.
#[derive(Clone, Copy, Debug, PartialEq, Eq, Structural)]
pub struct Vector3 {
    pub x: Scalar,
    pub y: Scalar,
    pub z: Scalar,
}

/// Four free numbers.
#[derive(Clone, Copy, Debug, PartialEq, Eq, Structural)]
pub struct Vector4 {
    pub x: Scalar,
    pub y: Scalar,
    pub z: Scalar,
    pub w: Scalar,
}

/// A colour: red, green, blue and alpha, one byte each.
#[derive(Clone, Copy, Debug, PartialEq, Eq, Structural)]
pub struct Rgba {
    pub r: u8,
    pub g: u8,
    pub b: u8,
    pub a: u8,
}

/// How a shape is blended with what lies under it.
#[derive(Clone, Copy, Debug, PartialEq, Eq, Structural)]
pub enum BlendMode {
    Alpha,
    Additive,
}

/// The panel that is shown: the global settings or one shape.
#[derive(Clone, Copy, Debug, PartialEq, Eq, Structural)]
pub enum SelectedTab {
    Global,
    Shape(u32),
}

/// The two roles a shader text can have for a shape.
#[derive(Clone, Copy, Debug, PartialEq, Eq, Structural)]
pub enum ShaderKind {
    Sdf,
    Fill,
}

impl ShaderKind {
    /// The role's name as the editor shows it.
    pub fn name(&self) -> (name: &'static str)
        ensures
            name@ == (match *self {
                ShaderKind::Sdf => "sdf"@,
                ShaderKind::Fill => "fill"@,
            }),
    {
        match self {
            ShaderKind::Sdf => "sdf",
            ShaderKind::Fill => "fill",
        }
    }
}

/// The background colour at the start.
pub open spec fn default_background_color() -> Rgba {
    Rgba { r: 43, g: 44, b: 47, a: 255 }
}

/// The colour of a new shape.
pub open spec fn default_shape_color() -> Rgba {
    Rgba { r: 200, g: 100, b: 100, a: 255 }
}

/// The state shared by the whole editor.
pub struct GlobalState {
    pub camera_position: Vector2,
    pub background_color: Rgba,
    next_shader_id: u32,
    next_shape_id: u32,
    pub selected_tab: SelectedTab,
    scroll_to: Option<u32>,
}

/// What the editor edits of one shape.
pub struct ShapeState {
    pub id: u32,
    pub position: Vector3,
    pub rotation: Scalar,
    pub scale: Scalar,
    pub color: Rgba,
    pub selected_shader: ShaderKind,
    pub sdf_code: String,
    pub fill_code: String,
    pub bounds_length: Scalar,
    pub params: Vector4,
    pub blend_mode: BlendMode,
}

impl ShapeState {
    /// The shader text of a role.
    pub open spec fn code_of(&self, shader: ShaderKind) -> Seq<char> {
        match shader {
            ShaderKind::Sdf => self.sdf_code@,
            ShaderKind::Fill => self.fill_code@,
        }
    }

    /// The shader text of a role.
    pub fn code(&self, shader: ShaderKind) -> (code: &String)
        ensures
            code@ == self.code_of(shader),
    {
        match shader {
            ShaderKind::Sdf => &self.sdf_code,
            ShaderKind::Fill => &self.fill_code,
        }
    }

    /// Replaces the shader text of the role that is being edited. The text
    /// of the other role and everything else stay as they are.
    pub fn replace_selected_code(&mut self, code: &str)
        ensures
            *final(self) == (match old(self).selected_shader {
                ShaderKind::Sdf => ShapeState { sdf_code: final(self).sdf_code, ..*old(self) },
                ShaderKind::Fill => ShapeState { fill_code: final(self).fill_code, ..*old(self) },
            }),
            final(self).code_of(old(self).selected_shader) == code@,
    {
        match self.selected_shader {
            ShaderKind::Sdf => {
                self.sdf_code = code.to_owned();
            },
            ShaderKind::Fill => {
                self.fill_code = code.to_owned();
            },
        }
    }
}

/// Whether a tab can be selected while the scene holds the shapes `ids`: the
/// global panel always, a shape if it is one of them.
pub open spec fn is_selectable(ids: Seq<u32>, tab: SelectedTab) -> bool {
    match tab {
        SelectedTab::Shape(id) => ids.contains(id),
        SelectedTab::Global => true,
    }
}

/// The scroll request that stands after `tab` was selected.
pub open spec fn scroll_after(before: Option<u32>, tab: SelectedTab) -> Option<u32> {
    match tab {
        SelectedTab::Shape(id) => Some(id),
        SelectedTab::Global => before,
    }
}

impl Default for GlobalState {
    /// The state of an editor that was just started: nothing counted yet,
    /// the global panel shown, no scroll request.
    fn default() -> (state: GlobalState)
        ensures
            state.camera().x.bits == DEFAULT_CAMERA_X_BITS,
            state.camera().y.bits == DEFAULT_CAMERA_Y_BITS,
            state.background() == default_background_color(),
            state.shader_counter() == 0,
            state.shape_counter() == 0,
            state.selection() == SelectedTab::Global,
            state.scroll_request() == None::<u32>,
    {
        GlobalState {
            camera_position: Vector2 {
                x: Scalar { bits: DEFAULT_CAMERA_X_BITS },
                y: Scalar { bits: DEFAULT_CAMERA_Y_BITS },
            },
            background_color: Rgba { r: 43, g: 44, b: 47, a: 255 },
            next_shader_id: 0,
            next_shape_id: 0,
            selected_tab: SelectedTab::Global,
            scroll_to: None,
        }
    }
}

impl GlobalState {
    /// Where the camera stands.
    pub closed spec fn camera(&self) -> Vector2 {
        self.camera_position
    }

    /// The colour behind the shapes.
    pub closed spec fn background(&self) -> Rgba {
        self.background_color
    }

    /// The tab that is selected.
    pub closed spec fn selection(&self) -> SelectedTab {
        self.selected_tab
    }

    /// The identifier that the next compilation gets.
    pub closed spec fn shader_counter(&self) -> u32 {
        self.next_shader_id
    }

    /// The identifier that the next shape gets.
    pub closed spec fn shape_counter(&self) -> u32 {
        self.next_shape_id
    }

    /// The shape to whose tab the editor is asked to scroll, if any.
    pub closed spec fn scroll_request(&self) -> Option<u32> {
        self.scroll_to
    }

    /// The tab that is selected.
    pub fn selected_tab(&self) -> (tab: SelectedTab)
        ensures
            tab == self.selection(),
    {
        self.selected_tab
    }

    /// The identifier that the next compilation gets.
    pub fn next_shader_id(&self) -> (id: u32)
        ensures
            id == self.shader_counter(),
    {
        self.next_shader_id
    }

    /// The identifier that the next shape gets.
    pub fn next_shape_id(&self) -> (id: u32)
        ensures
            id == self.shape_counter(),
    {
        self.next_shape_id
    }

    /// The shape to whose tab the editor is asked to scroll, if any.
    pub fn scroll_to(&self) -> (request: Option<u32>)
        ensures
            request == self.scroll_request(),
    {
        self.scroll_to
    }

    /// Whether everything but the shader counter is as in `before`.
    pub open spec fn same_but_shader_counter(&self, before: &GlobalState) -> bool {
        &&& self.camera() == before.camera()
        &&& self.background() == before.background()
        &&& self.shape_counter() == before.shape_counter()
        &&& self.selection() == before.selection()
        &&& self.scroll_request() == before.scroll_request()
    }

    /// Whether everything but the selection and the scroll request is as in
    /// `before`.
    pub open spec fn same_but_selection(&self, before: &GlobalState) -> bool {
        &&& self.camera() == before.camera()
        &&& self.background() == before.background()
        &&& self.shader_counter() == before.shader_counter()
        &&& self.shape_counter() == before.shape_counter()
    }

    /// Hands out the next shader identifier and advances the counter.
    pub fn create_shader(&mut self) -> (id: u32)
        requires
            old(self).shader_counter() < u32::MAX,
        ensures
            id == old(self).shader_counter(),
            final(self).shader_counter() == id + 1,
            final(self).same_but_shader_counter(old(self)),
    {
        let id: u32 = self.next_shader_id;
        self.next_shader_id = id + 1;
        id
    }

    /// Hands out the next shape identifier, advances the counter, and selects
    /// the new shape, with a request to scroll to its tab.
    pub fn create_shape(&mut self) -> (id: u32)
        requires
            old(self).shape_counter() < u32::MAX,
        ensures
            id == old(self).shape_counter(),
            final(self).shape_counter() == id + 1,
            final(self).selection() == SelectedTab::Shape(id),
            final(self).scroll_request() == Some(id),
            final(self).shader_counter() == old(self).shader_counter(),
            final(self).camera() == old(self).camera(),
            final(self).background() == old(self).background(),
    {
        let id: u32 = self.next_shape_id;
        self.next_shape_id = id + 1;
        self.show_tab(SelectedTab::Shape(id));
        id
    }

    /// Shows a tab. Showing a shape also asks to scroll to its tab; showing
    /// the global panel leaves a pending request as it is.
    fn show_tab(&mut self, tab: SelectedTab)
        ensures
            final(self).selection() == tab,
            final(self).scroll_request() == scroll_after(old(self).scroll_request(), tab),
            final(self).same_but_selection(old(self)),
    {
        self.selected_tab = tab;
        if let SelectedTab::Shape(id) = tab {
            self.scroll_to = Some(id);
        }
    }

    /// Selects a tab among those of the shapes `ids`. Selecting a shape also
    /// asks to scroll to its tab; selecting the global panel leaves a pending
    /// request as it is. Selecting a shape that is not one of `ids` changes
    /// nothing.
    pub fn select_tab(&mut self, tab: SelectedTab, ids: &Vec<u32>)
        ensures
            is_selectable(ids@, tab) ==> {
                &&& final(self).selection() == tab
                &&& final(self).scroll_request() == scroll_after(old(self).scroll_request(), tab)
                &&& final(self).same_but_selection(old(self))
            },
            !is_selectable(ids@, tab) ==> *final(self) == *old(self),
    {
        let there = match tab {
            SelectedTab::Shape(id) => has_shape(ids, id),
            SelectedTab::Global => true,
        };
        if there {
            self.show_tab(tab);
        }
    }

    /// Answers whether the editor should scroll to the tab of `shape`, and
    /// takes the request back when it does.
    pub fn check_scroll_to(&mut self, shape: u32) -> (scroll: bool)
        ensures
            (scroll, final(self).scroll_request()) == consumed(old(self).scroll_request(), shape),
            final(self).selection() == old(self).selection(),
            final(self).same_but_selection(old(self)),
    {
        let asked = match self.scroll_to {
            Some(id) => id == shape,
            None => false,
        };
        if asked {
            self.scroll_to = None;
        }
        asked
    }
}

/// A request to scroll is answered once: after a shape was selected, the
/// first question for it says yes and the second says no.
pub proof fn lemma_scroll_request_is_answered_once(before: Option<u32>, id: u32)
    ensures
        scroll_after(before, SelectedTab::Shape(id)) == Some(id),
        consumed(scroll_after(before, SelectedTab::Shape(id)), id).0,
        !consumed(consumed(scroll_after(before, SelectedTab::Shape(id)), id).1, id).0,
{
}

/// The answer to a scroll question for `shape` and the request left after it.
pub open spec fn consumed(request: Option<u32>, shape: u32) -> (bool, Option<u32>) {
    if request == Some(shape) {
        (true, None)
    } else {
        (false, request)
    }
}

/// The shape that a tab shows, if it shows one.
pub open spec fn shape_of(tab: SelectedTab) -> Option<u32> {
    match tab {
        SelectedTab::Shape(id) => Some(id),
        SelectedTab::Global => None,
    }
}

/// Whether `y` is the greatest of `ids` below `id`.
pub open spec fn is_lower_neighbor(ids: Seq<u32>, id: u32, y: u32) -> bool {
    &&& ids.contains(y)
    &&& y < id
    &&& forall|j: int| 0 <= j < ids.len() && ids[j] < id ==> ids[j] <= y
}

/// Whether `y` is the least of `ids` above `id`.
pub open spec fn is_upper_neighbor(ids: Seq<u32>, id: u32, y: u32) -> bool {
    &&& ids.contains(y)
    &&& y > id
    &&& forall|j: int| 0 <= j < ids.len() && ids[j] > id ==> ids[j] >= y
}

/// Whether `found` is the shape to select when `id` leaves `ids`: the next
/// lower one; the next higher one where none is lower; none where `ids` holds
/// no other shape.
pub open spec fn is_neighbor(ids: Seq<u32>, id: u32, found: Option<u32>) -> bool {
    match found {
        Some(y) => is_lower_neighbor(ids, id, y) || (is_upper_neighbor(ids, id, y) && forall|
            j: int,
        | 0 <= j < ids.len() ==> ids[j] >= id),
        None => forall|j: int| 0 <= j < ids.len() ==> ids[j] == id,
    }
}

/// There is one answer to the question which shape to select after a
/// deletion.
pub proof fn lemma_neighbor_is_unique(ids: Seq<u32>, id: u32, a: Option<u32>, b: Option<u32>)
    requires
        is_neighbor(ids, id, a),
        is_neighbor(ids, id, b),
    ensures
        a == b,
{
    if let Some(x) = a {
        let i = choose|i: int| 0 <= i < ids.len() && ids[i] == x;
        assert(ids[i] == x);
        if let Some(y) = b {
            let j = choose|j: int| 0 <= j < ids.len() && ids[j] == y;
            assert(ids[j] == y);
        }
    } else if let Some(y) = b {
        let j = choose|j: int| 0 <= j < ids.len() && ids[j] == y;
        assert(ids[j] == y);
    }
}

/// The shape to select when `id` leaves `ids`, whatever the order of `ids`.
pub fn neighbor_of(ids: &Vec<u32>, id: u32) -> (found: Option<u32>)
    ensures
        is_neighbor(ids@, id, found),
{
    let mut lower: Option<u32> = None;
    let mut upper: Option<u32> = None;
    let mut i: usize = 0;
    while i < ids.len()
        invariant
            i <= ids.len(),
            match lower {
                Some(y) => y < id && (exists|k: int| 0 <= k < i && ids[k] == y) && forall|j: int|
                    0 <= j < i && ids[j] < id ==> ids[j] <= y,
                None => forall|j: int| 0 <= j < i ==> ids[j] >= id,
            },
            match upper {
                Some(y) => y > id && (exists|k: int| 0 <= k < i && ids[k] == y) && forall|j: int|
                    0 <= j < i && ids[j] > id ==> ids[j] >= y,
                None => forall|j: int| 0 <= j < i ==> ids[j] <= id,
            },
        decreases ids.len() - i,
    {
        let y: u32 = ids[i];
        if y < id {
            let better = match lower {
                Some(best) => best < y,
                None => true,
            };
            if better {
                lower = Some(y);
            }
        } else if y > id {
            let better = match upper {
                Some(best) => best > y,
                None => true,
            };
            if better {
                upper = Some(y);
            }
        }
        i += 1;
    }
    match lower {
        Some(y) => {
            assert(ids@.contains(y));
            lower
        },
        None => {
            if let Some(y) = upper {
                assert(ids@.contains(y));
            }
            upper
        },
    }
}

/// Whether `id` is one of `ids`.
pub fn has_shape(ids: &Vec<u32>, id: u32) -> (found: bool)
    ensures
        found == ids@.contains(id),
{
    let mut i: usize = 0;
    while i < ids.len()
        invariant
            i <= ids.len(),
            forall|j: int| 0 <= j < i ==> ids[j] != id,
        decreases ids.len() - i,
    {
        if ids[i] == id {
            return true;
        }
        i += 1;
    }
    false
}

impl GlobalState {
    /// Deletes the selected shape from the selection: where a shape of `ids`
    /// is selected, its neighbour is selected in its place, or the global
    /// panel if `ids` holds no other shape, and the shape comes back for the
    /// scene to remove. Otherwise nothing changes and nothing comes back.
    pub fn delete_selected(&mut self, ids: &Vec<u32>) -> (deleted: Option<u32>)
        ensures
            deleted == (match old(self).selection() {
                SelectedTab::Shape(id) if ids@.contains(id) => Some(id),
                _ => None::<u32>,
            }),
            deleted is None ==> *final(self) == *old(self),
            deleted matches Some(id) ==> {
                &&& is_neighbor(ids@, id, shape_of(final(self).selection()))
                &&& final(self).scroll_request() == scroll_after(
                    old(self).scroll_request(),
                    final(self).selection(),
                )
                &&& final(self).same_but_selection(old(self))
            },
    {
        match self.selected_tab {
            SelectedTab::Shape(id) => {
                if has_shape(ids, id) {
                    let tab = match neighbor_of(ids, id) {
                        Some(next) => SelectedTab::Shape(next),
                        None => SelectedTab::Global,
                    };
                    self.show_tab(tab);
                    Some(id)
                } else {
                    None
                }
            },
            SelectedTab::Global => None,
        }
    }
}

/// Whether every element of `tabs` is below the one after it.
pub open spec fn is_increasing(tabs: Seq<u32>) -> bool {
    forall|i: int, j: int| 0 <= i < j < tabs.len() ==> tabs[i] < tabs[j]
}

/// Whether `tabs` is the tab strip of the shapes `ids`: every shape once,
/// from the lowest identifier to the highest.
pub open spec fn is_tab_order(ids: Seq<u32>, tabs: Seq<u32>) -> bool {
    &&& is_increasing(tabs)
    &&& forall|x: u32| tabs.contains(x) <==> ids.contains(x)
}

/// Two rising sequences with the same elements are one sequence.
pub proof fn lemma_increasing_is_unique(a: Seq<u32>, b: Seq<u32>)
    requires
        is_increasing(a),
        is_increasing(b),
        forall|x: u32| a.contains(x) <==> b.contains(x),
    ensures
        a == b,
    decreases a.len(),
{
    if a.len() == 0 {
        if b.len() > 0 {
            assert(b.contains(b[0]));
        }
        assert(a =~= b);
    } else {
        assert(a.contains(a[0]));
        let j = choose|j: int| 0 <= j < b.len() && b[j] == a[0];
        assert(b.contains(b[0]));
        let i = choose|i: int| 0 <= i < a.len() && a[i] == b[0];
        assert(a[0] == b[0]) by {
            if i > 0 {
                assert(a[0] < a[i]);
            }
            if j > 0 {
                assert(b[0] < b[j]);
            }
        }
        let a1 = a.drop_first();
        let b1 = b.drop_first();
        assert forall|x: u32| a1.contains(x) <==> b1.contains(x) by {
            if a1.contains(x) {
                let k = choose|k: int| 0 <= k < a1.len() && a1[k] == x;
                assert(a[k + 1] == x);
                assert(a[0] < a[k + 1]);
                assert(a.contains(x));
                let m = choose|m: int| 0 <= m < b.len() && b[m] == x;
                assert(b1[m - 1] == x);
            }
            if b1.contains(x) {
                let k = choose|k: int| 0 <= k < b1.len() && b1[k] == x;
                assert(b[k + 1] == x);
                assert(b[0] < b[k + 1]);
                assert(b.contains(x));
                let m = choose|m: int| 0 <= m < a.len() && a[m] == x;
                assert(a1[m - 1] == x);
            }
        }
        assert forall|p: int, q: int| 0 <= p < q < a1.len() implies a1[p] < a1[q] by {
            assert(a[p + 1] < a[q + 1]);
        }
        assert forall|p: int, q: int| 0 <= p < q < b1.len() implies b1[p] < b1[q] by {
            assert(b[p + 1] < b[q + 1]);
        }
        lemma_increasing_is_unique(a1, b1);
        assert(a =~= seq![a[0]] + a1);
        assert(b =~= seq![b[0]] + b1);
    }
}

/// The shapes `ids` have one tab strip.
pub proof fn lemma_tab_order_is_unique(ids: Seq<u32>, a: Seq<u32>, b: Seq<u32>)
    requires
        is_tab_order(ids, a),
        is_tab_order(ids, b),
    ensures
        a == b,
{
    assert forall|x: u32| a.contains(x) <==> b.contains(x) by {
        assert(a.contains(x) <==> ids.contains(x));
        assert(b.contains(x) <==> ids.contains(x));
    }
    lemma_increasing_is_unique(a, b);
}

/// Puts a shape into a tab strip, unless it is there.
fn insert_tab(tabs: &mut Vec<u32>, id: u32)
    requires
        is_increasing(old(tabs)@),
    ensures
        is_increasing(final(tabs)@),
        forall|x: u32| final(tabs)@.contains(x) <==> (old(tabs)@.contains(x) || x == id),
{
    let mut pos: usize = 0;
    while pos < tabs.len() && tabs[pos] < id
        invariant
            pos <= tabs.len(),
            tabs@ == old(tabs)@,
            forall|i: int| 0 <= i < pos ==> tabs[i] < id,
        decreases tabs.len() - pos,
    {
        pos += 1;
    }
    if pos < tabs.len() && tabs[pos] == id {
        assert(tabs@.contains(id));
        return ;
    }
    let ghost before = tabs@;
    tabs.insert(pos, id);
    proof {
        let after = tabs@;
        assert(after.len() == before.len() + 1);
        assert(after[pos as int] == id);
        assert forall|i: int| 0 <= i < pos implies after[i] == before[i] by {}
        assert forall|i: int| pos < i < after.len() implies after[i] == before[i - 1] by {}
        assert forall|i: int, j: int| 0 <= i < j < after.len() implies after[i] < after[j] by {
            if j < pos {
            } else if j == pos {
            } else if i < pos {
                assert(before[i] < id);
                assert(id <= before[pos as int]);
                if j - 1 > pos {
                    assert(before[pos as int] < before[j - 1]);
                }
            } else if i == pos {
                if j - 1 > pos {
                    assert(before[pos as int] < before[j - 1]);
                }
            } else {
                assert(before[i - 1] < before[j - 1]);
            }
        }
        assert forall|x: u32| after.contains(x) <==> (before.contains(x) || x == id) by {
            if after.contains(x) {
                let i = choose|i: int| 0 <= i < after.len() && after[i] == x;
                if i < pos {
                    assert(before[i] == x);
                } else if i > pos {
                    assert(before[i - 1] == x);
                }
            }
            if before.contains(x) {
                let i = choose|i: int| 0 <= i < before.len() && before[i] == x;
                if i < pos {
                    assert(after[i] == x);
                } else {
                    assert(after[i + 1] == x);
                }
            }
        }
    }
}

/// The tab strip of the shapes `ids`: every shape once, from the lowest
/// identifier to the highest, in whatever order the scene lists them.
pub fn tab_order(ids: &Vec<u32>) -> (tabs: Vec<u32>)
    ensures
        is_tab_order(ids@, tabs@),
{
    let mut tabs: Vec<u32> = Vec::new();
    let mut i: usize = 0;
    while i < ids.len()
        invariant
            i <= ids.len(),
            is_increasing(tabs@),
            forall|x: u32| tabs@.contains(x) <==> ids@.take(i as int).contains(x),
        decreases ids.len() - i,
    {
        let ghost before = tabs@;
        insert_tab(&mut tabs, ids[i]);
        proof {
            let done = ids@.take(i as int);
            let next = ids@.take(i + 1);
            assert(next =~= done.push(ids[i as int]));
            assert forall|x: u32| tabs@.contains(x) <==> next.contains(x) by {
                if next.contains(x) {
                    let k = choose|k: int| 0 <= k < next.len() && next[k] == x;
                    if k < i {
                        assert(done[k] == x);
                    }
                }
                if done.contains(x) {
                    let k = choose|k: int| 0 <= k < done.len() && done[k] == x;
                    assert(next[k] == x);
                }
                assert(next[i as int] == ids[i as int]);
            }
        }
        i += 1;
    }
    assert(ids@.take(ids.len() as int) =~= ids@);
    tabs
}

} // verus!
