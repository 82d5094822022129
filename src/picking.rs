//! Pointer picking: the table of pressed pointers, the click-versus-drag
//! decision on release, the highlighted-edge selection, and what a ray hit on
//! a mesh leads to.
//!
//! Screen positions are held in fixed point, in thousandths of a logical
//! pixel; an entity is held by its bits; the parameter of an edge hit in
//! billionths of the edge's length from its first vertex.
use vstd::prelude::*;

verus! {

/// A release this far from its press, in thousandths of a pixel, is still a
/// click.
pub const CLICK_DEADZONE: i128 = 3_000;

/// The square of the click deadzone.
pub const CLICK_DEADZONE_SQ: i128 = CLICK_DEADZONE * CLICK_DEADZONE;

/// Half of an edge's length, in billionths.
pub const HIT_PARAM_HALF: u32 = 500_000_000;

/// Which pointer an event comes from.
#[derive(PartialEq, Eq, Structural, Clone, Copy, Debug)]
pub enum PointerKey {
    Mouse,
    Touch(u64),
    Custom(u128),
}

/// A position on the window, in thousandths of a logical pixel.
#[derive(PartialEq, Eq, Structural, Clone, Copy, Debug)]
pub struct ScreenPos {
    pub x: i32,
    pub y: i32,
}

/// Where and on what a pointer was pressed. The target is the entity under
/// the pointer, where one was known.
#[derive(PartialEq, Eq, Structural, Clone, Copy, Debug)]
pub struct PressRecord {
    pub pointer: PointerKey,
    pub position: ScreenPos,
    pub target: Option<u64>,
}

/// What a release amounts to.
#[derive(PartialEq, Eq, Structural, Clone, Copy, Debug)]
pub enum Release {
    /// No press of this pointer was recorded.
    Unmatched,
    /// Released near the press, on the same target.
    Click,
    /// Moved beyond the deadzone, or onto another target.
    Drag,
}

/// The outstanding presses, at most one per pointer.
pub struct PointerPresses {
    records: Vec<PressRecord>,
}

pub open spec fn keys_unique(s: Seq<PressRecord>) -> bool {
    forall|i: int, j: int| 0 <= i < j < s.len() ==> s[i].pointer != s[j].pointer
}

/// The records as a map from pointer to its press.
pub open spec fn press_map(s: Seq<PressRecord>) -> Map<PointerKey, PressRecord>
    decreases s.len(),
{
    if s.len() == 0 {
        Map::empty()
    } else {
        press_map(s.drop_last()).insert(s.last().pointer, s.last())
    }
}

/// A pointer has a press in the map exactly where a record names it, and
/// with unique pointers that record is what the map holds.
pub proof fn lemma_press_map(s: Seq<PressRecord>)
    ensures
        forall|k: PointerKey| #[trigger]
            press_map(s).contains_key(k) <==> exists|i: int| 0 <= i < s.len() && s[i].pointer == k,
        keys_unique(s) ==> forall|i: int|
            0 <= i < s.len() ==> #[trigger] press_map(s)[s[i].pointer] == s[i],
    decreases s.len(),
{
    if s.len() > 0 {
        let p = s.drop_last();
        lemma_press_map(p);
        assert(press_map(s) == press_map(p).insert(s.last().pointer, s.last()));
        assert forall|k: PointerKey| #[trigger]
            press_map(s).contains_key(k) <==> exists|i: int| 0 <= i < s.len() && s[i].pointer == k by {
            if press_map(s).contains_key(k) && k != s.last().pointer {
                assert(press_map(p).contains_key(k));
                let i = choose|i: int| 0 <= i < p.len() && p[i].pointer == k;
                assert(s[i] == p[i]);
            }
            if exists|i: int| 0 <= i < s.len() && s[i].pointer == k {
                let i = choose|i: int| 0 <= i < s.len() && s[i].pointer == k;
                if i < p.len() {
                    assert(p[i] == s[i]);
                    assert(press_map(p).contains_key(k));
                }
            }
        }
        if keys_unique(s) {
            assert forall|i: int| 0 <= i < s.len() implies #[trigger] press_map(s)[s[i].pointer]
                == s[i] by {
                if i < p.len() {
                    assert(p[i] == s[i]);
                    assert(s[i].pointer != s.last().pointer);
                }
            }
        }
    }
}

impl View for PointerPresses {
    type V = Map<PointerKey, PressRecord>;

    closed spec fn view(&self) -> Map<PointerKey, PressRecord> {
        press_map(self.records@)
    }
}

impl Default for PointerPresses {
    fn default() -> (r: PointerPresses)
        ensures
            r.wf(),
            r@ == Map::<PointerKey, PressRecord>::empty(),
    {
        PointerPresses::new()
    }
}

impl PointerPresses {
    /// At most one record per pointer.
    pub closed spec fn wf(&self) -> bool {
        keys_unique(self.records@)
    }

    pub fn new() -> (r: PointerPresses)
        ensures
            r.wf(),
            r@ == Map::<PointerKey, PressRecord>::empty(),
    {
        PointerPresses { records: Vec::new() }
    }

    /// The index of the record of `pointer`, if there is one.
    fn find(&self, pointer: PointerKey) -> (r: Option<usize>)
        ensures
            match r {
                Some(i) => i < self.records.len() && self.records@[i as int].pointer == pointer,
                None => forall|i: int|
                    0 <= i < self.records.len() ==> self.records@[i].pointer != pointer,
            },
    {
        let mut i: usize = 0;
        while i < self.records.len()
            invariant
                0 <= i <= self.records.len(),
                forall|j: int| 0 <= j < i ==> self.records@[j].pointer != pointer,
            decreases self.records.len() - i,
        {
            if self.records[i].pointer == pointer {
                return Some(i);
            }
            i = i + 1;
        }
        None
    }

    /// Records a press of `pointer`, replacing an earlier one of it.
    pub fn press(&mut self, pointer: PointerKey, position: ScreenPos, target: Option<u64>)
        requires
            old(self).wf(),
        ensures
            final(self).wf(),
            final(self)@ == old(self)@.insert(
                pointer,
                PressRecord { pointer, position, target },
            ),
    {
        proof {
            lemma_press_map(self.records@);
        }
        let record = PressRecord { pointer, position, target };
        let ghost old_records = self.records@;
        match self.find(pointer) {
            Some(i) => {
                self.records.set(i, record);
                let ghost new_records = self.records@;
                proof {
                    assert(new_records == old_records.update(i as int, record));
                    assert(keys_unique(new_records));
                    lemma_press_map(new_records);
                    assert forall|k: PointerKey|
                        #[trigger] press_map(new_records).contains_key(k)
                            == press_map(old_records).insert(pointer, record).contains_key(k) by {
                        if exists|j: int| 0 <= j < old_records.len() && old_records[j].pointer == k {
                            let j = choose|j: int|
                                0 <= j < old_records.len() && old_records[j].pointer == k;
                            assert(new_records[j].pointer == k);
                        }
                        if exists|j: int| 0 <= j < new_records.len() && new_records[j].pointer == k {
                            let j = choose|j: int|
                                0 <= j < new_records.len() && new_records[j].pointer == k;
                            assert(old_records[j].pointer == k);
                        }
                    }
                    assert forall|k: PointerKey| #[trigger]
                        press_map(new_records).contains_key(k) implies press_map(new_records)[k]
                        == press_map(old_records).insert(pointer, record)[k] by {
                        let j = choose|j: int|
                            0 <= j < new_records.len() && new_records[j].pointer == k;
                        assert(press_map(new_records)[new_records[j].pointer] == new_records[j]);
                        if j != i {
                            assert(press_map(old_records)[old_records[j].pointer]
                                == old_records[j]);
                        }
                    }
                    assert(press_map(new_records) =~= press_map(old_records).insert(
                        pointer,
                        record,
                    ));
                }
            },
            None => {
                self.records.push(record);
                proof {
                    assert(self.records@.drop_last() == old_records);
                }
            },
        }
    }

    /// Takes the press record of `pointer` out of the table, if there is one.
    pub fn take(&mut self, pointer: PointerKey) -> (r: Option<PressRecord>)
        requires
            old(self).wf(),
        ensures
            final(self).wf(),
            final(self)@ == old(self)@.remove(pointer),
            r == (if old(self)@.contains_key(pointer) {
                Some(old(self)@[pointer])
            } else {
                None
            }),
    {
        proof {
            lemma_press_map(self.records@);
        }
        let ghost old_records = self.records@;
        match self.find(pointer) {
            Some(i) => {
                let record = self.records.remove(i);
                let ghost new_records = self.records@;
                proof {
                    assert(new_records == old_records.remove(i as int));
                    assert(record == old_records[i as int]);
                    assert forall|a: int, b: int| 0 <= a < b < new_records.len() implies
                        new_records[a].pointer != new_records[b].pointer by {
                        let a0 = if a < i { a } else { a + 1 };
                        let b0 = if b < i { b } else { b + 1 };
                        assert(new_records[a] == old_records[a0]);
                        assert(new_records[b] == old_records[b0]);
                    }
                    lemma_press_map(new_records);
                    assert forall|k: PointerKey|
                        #[trigger] press_map(new_records).contains_key(k)
                            == press_map(old_records).remove(pointer).contains_key(k) by {
                        if exists|j: int| 0 <= j < new_records.len() && new_records[j].pointer == k {
                            let j = choose|j: int|
                                0 <= j < new_records.len() && new_records[j].pointer == k;
                            let j0 = if j < i { j } else { j + 1 };
                            assert(old_records[j0].pointer == k);
                        }
                        if k != pointer && exists|j: int|
                            0 <= j < old_records.len() && old_records[j].pointer == k {
                            let j = choose|j: int|
                                0 <= j < old_records.len() && old_records[j].pointer == k;
                            assert(j != i);
                            let j1 = if j < i { j } else { j - 1 };
                            assert(new_records[j1].pointer == k);
                        }
                    }
                    assert forall|k: PointerKey| #[trigger]
                        press_map(new_records).contains_key(k) implies press_map(new_records)[k]
                        == press_map(old_records).remove(pointer)[k] by {
                        let j = choose|j: int|
                            0 <= j < new_records.len() && new_records[j].pointer == k;
                        let j0 = if j < i { j } else { j + 1 };
                        assert(new_records[j] == old_records[j0]);
                        assert(press_map(new_records)[new_records[j].pointer] == new_records[j]);
                        assert(press_map(old_records)[old_records[j0].pointer] == old_records[j0]);
                    }
                    assert(press_map(new_records) =~= press_map(old_records).remove(pointer));
                }
                Some(record)
            },
            None => {
                proof {
                    assert(press_map(old_records) =~= press_map(old_records).remove(pointer));
                }
                None
            },
        }
    }
}

pub open spec fn squared_distance(a: ScreenPos, b: ScreenPos) -> int {
    (b.x - a.x) * (b.x - a.x) + (b.y - a.y) * (b.y - a.y)
}

/// Two targets agree unless both are known and differ.
pub open spec fn targets_agree(pressed: Option<u64>, released: Option<u64>) -> bool {
    match (pressed, released) {
        (Some(a), Some(b)) => a == b,
        _ => true,
    }
}

pub open spec fn release_kind(
    press: Option<PressRecord>,
    position: ScreenPos,
    target: Option<u64>,
) -> Release {
    match press {
        None => Release::Unmatched,
        Some(p) => if squared_distance(p.position, position) <= CLICK_DEADZONE_SQ
            && targets_agree(p.target, target) {
            Release::Click
        } else {
            Release::Drag
        },
    }
}

/// What a release of `pointer` amounts to, given the presses before it.
pub open spec fn release_outcome(
    presses: Map<PointerKey, PressRecord>,
    pointer: PointerKey,
    position: ScreenPos,
    target: Option<u64>,
) -> Release {
    release_kind(
        if presses.contains_key(pointer) {
            Some(presses[pointer])
        } else {
            None
        },
        position,
        target,
    )
}

/// Decides click or drag for a release at `position` on `target`.
pub fn classify_release(press: Option<PressRecord>, position: ScreenPos, target: Option<u64>) -> (r:
    Release)
    ensures
        r == release_kind(press, position, target),
{
    match press {
        None => Release::Unmatched,
        Some(p) => {
            let dx: i128 = position.x as i128 - p.position.x as i128;
            let dy: i128 = position.y as i128 - p.position.y as i128;
            assert(0 <= dx * dx <= 0x1_0000_0000_0000_0000) by (nonlinear_arith)
                requires
                    -0x1_0000_0000 <= dx <= 0x1_0000_0000,
            ;
            assert(0 <= dy * dy <= 0x1_0000_0000_0000_0000) by (nonlinear_arith)
                requires
                    -0x1_0000_0000 <= dy <= 0x1_0000_0000,
            ;
            let moved_sq: i128 = dx * dx + dy * dy;
            let same_target = match (p.target, target) {
                (Some(a), Some(b)) => a == b,
                _ => true,
            };
            if moved_sq <= CLICK_DEADZONE_SQ && same_target {
                Release::Click
            } else {
                Release::Drag
            }
        },
    }
}

/// The entities that mark the current selection, one per highlighted edge.
pub struct HighlightedEdges {
    pub cylinders: Vec<u64>,
}

impl Default for HighlightedEdges {
    fn default() -> (r: HighlightedEdges)
        ensures
            r.cylinders@ == Seq::<u64>::empty(),
    {
        HighlightedEdges::new()
    }
}

impl HighlightedEdges {
    pub fn new() -> (r: HighlightedEdges)
        ensures
            r.cylinders@ == Seq::<u64>::empty(),
    {
        HighlightedEdges { cylinders: Vec::new() }
    }

    /// Empties the selection and hands back every entity it held, to be
    /// removed from the scene.
    pub fn clear(&mut self) -> (despawn: Vec<u64>)
        ensures
            despawn@ == old(self).cylinders@,
            final(self).cylinders@ == Seq::<u64>::empty(),
    {
        let mut taken: Vec<u64> = Vec::new();
        std::mem::swap(&mut taken, &mut self.cylinders);
        taken
    }

    /// Adds the entity that marks one more edge.
    pub fn record(&mut self, entity: u64)
        ensures
            final(self).cylinders@ == old(self).cylinders@.push(entity),
    {
        self.cylinders.push(entity);
    }
}

/// The selection, and what is to be removed from the scene, after a release
/// whose outcome is known: a click on a mesh clears the selection, anything
/// else leaves it as it was.
pub open spec fn selection_after_release(
    highlights: Seq<u64>,
    outcome: Release,
    on_mesh: bool,
) -> (Seq<u64>, Seq<u64>) {
    if outcome == Release::Click && on_mesh {
        (Seq::empty(), highlights)
    } else {
        (highlights, Seq::empty())
    }
}

/// The outcome of a release, and the highlight entities it retires.
pub struct ReleaseEffect {
    pub outcome: Release,
    pub despawn: Vec<u64>,
}

/// Handles the release of `pointer` at `position` over `target`. The press
/// record is consumed whatever the outcome. A click on an entity that carries
/// a mesh clears the previous selection, which a new one then replaces.
pub fn release_pointer(
    presses: &mut PointerPresses,
    highlights: &mut HighlightedEdges,
    pointer: PointerKey,
    position: ScreenPos,
    target: Option<u64>,
    target_is_mesh: bool,
) -> (r: ReleaseEffect)
    requires
        old(presses).wf(),
    ensures
        final(presses).wf(),
        final(presses)@ == old(presses)@.remove(pointer),
        r.outcome == release_outcome(old(presses)@, pointer, position, target),
        (final(highlights).cylinders@, r.despawn@) == selection_after_release(
            old(highlights).cylinders@,
            r.outcome,
            target_is_mesh,
        ),
{
    let press = presses.take(pointer);
    let outcome = classify_release(press, position, target);
    if outcome == Release::Click && target_is_mesh {
        let despawn = highlights.clear();
        ReleaseEffect { outcome, despawn }
    } else {
        ReleaseEffect { outcome, despawn: Vec::new() }
    }
}

/// A release near its press, on the same target, is a click; one beyond the
/// deadzone is a drag; and a drag leaves the selection as it was.
pub proof fn lemma_click_or_drag(
    press: PressRecord,
    position: ScreenPos,
    target: Option<u64>,
    highlights: Seq<u64>,
    on_mesh: bool,
)
    ensures
        squared_distance(press.position, position) <= CLICK_DEADZONE_SQ && targets_agree(
            press.target,
            target,
        ) ==> release_kind(Some(press), position, target) == Release::Click,
        squared_distance(press.position, position) > CLICK_DEADZONE_SQ ==> release_kind(
            Some(press),
            position,
            target,
        ) == Release::Drag,
        selection_after_release(highlights, Release::Drag, on_mesh) == (
            highlights,
            Seq::<u64>::empty(),
        ),
{
}

/// Whether the collapse-edge editing mode is armed.
pub struct ToggledEdgeOperations {
    pub collapse: bool,
}

impl Default for ToggledEdgeOperations {
    fn default() -> (r: ToggledEdgeOperations)
        ensures
            !r.collapse,
    {
        ToggledEdgeOperations::new()
    }
}

impl ToggledEdgeOperations {
    pub fn new() -> (r: ToggledEdgeOperations)
        ensures
            !r.collapse,
    {
        ToggledEdgeOperations { collapse: false }
    }

    /// Arms the collapse mode, or disarms it.
    pub fn toggle_collapse(&mut self)
        ensures
            final(self).collapse == !old(self).collapse,
    {
        self.collapse = !self.collapse;
    }
}

/// What a ray cast against a mesh found.
#[derive(Debug)]
pub enum MeshHit {
    Miss,
    /// A vertex, by index.
    Vertex(usize),
    /// The edge from `v0` to `v1`, at `u` billionths of its length from `v0`.
    Edge { v0: usize, v1: usize, u: u32 },
    /// A face, with its boundary edges in order.
    Face { face: usize, boundary: Vec<(usize, usize)> },
}

/// What to do about a hit.
#[derive(Debug)]
pub enum HitPlan {
    /// Mark these edges.
    Highlight(Vec<(usize, usize)>),
    /// Merge `remove` into `keep`.
    Collapse { keep: usize, remove: usize },
}

/// The vertex to keep and the vertex to remove when collapsing the edge from
/// `v0` to `v1` hit at `u`: the endpoint nearer the hit goes.
pub open spec fn collapse_pair(v0: usize, v1: usize, u: u32) -> (usize, usize) {
    if u < HIT_PARAM_HALF {
        (v1, v0)
    } else {
        (v0, v1)
    }
}

/// The edges that a hit marks.
pub open spec fn planned_highlights(hit: MeshHit, collapse_armed: bool) -> Seq<(usize, usize)> {
    match hit {
        MeshHit::Miss => Seq::empty(),
        MeshHit::Vertex(_) => Seq::empty(),
        MeshHit::Edge { v0, v1, .. } => if collapse_armed {
            Seq::empty()
        } else {
            seq![(v0, v1)]
        },
        MeshHit::Face { boundary, .. } => boundary@,
    }
}

pub open spec fn plans_collapse(hit: MeshHit, collapse_armed: bool) -> bool {
    collapse_armed && hit is Edge
}

/// Chooses the vertex to keep and the one to remove for an edge hit.
pub fn collapse_direction(v0: usize, v1: usize, u: u32) -> (r: (usize, usize))
    ensures
        r == collapse_pair(v0, v1, u),
{
    if u < HIT_PARAM_HALF {
        (v1, v0)
    } else {
        (v0, v1)
    }
}

/// Decides what a hit leads to: with the collapse mode armed an edge hit is
/// collapsed; otherwise the hit edge, or every boundary edge of the hit face,
/// is marked, and a miss marks nothing.
pub fn plan_hit(hit: MeshHit, collapse_armed: bool) -> (r: HitPlan)
    ensures
        plans_collapse(hit, collapse_armed) ==> r == (HitPlan::Collapse {
            keep: collapse_pair(hit->v0, hit->v1, hit->u).0,
            remove: collapse_pair(hit->v0, hit->v1, hit->u).1,
        }),
        !plans_collapse(hit, collapse_armed) ==> r is Highlight && r->Highlight_0@
            == planned_highlights(hit, collapse_armed),
{
    match hit {
        MeshHit::Miss => HitPlan::Highlight(Vec::new()),
        MeshHit::Vertex(_) => HitPlan::Highlight(Vec::new()),
        MeshHit::Edge { v0, v1, u } => {
            if collapse_armed {
                let (keep, remove) = collapse_direction(v0, v1, u);
                HitPlan::Collapse { keep, remove }
            } else {
                let mut edges: Vec<(usize, usize)> = Vec::new();
                edges.push((v0, v1));
                HitPlan::Highlight(edges)
            }
        },
        MeshHit::Face { boundary, .. } => HitPlan::Highlight(boundary),
    }
}

/// After a click, the selection made by a face hit has one mark per boundary
/// edge of the face, the one made by an edge hit outside the collapse mode
/// has one mark, and after a miss there is none; an edge hit in the collapse
/// mode marks nothing. One entity is added per planned edge.
pub proof fn lemma_selection_size(
    highlights: Seq<u64>,
    hit: MeshHit,
    collapse_armed: bool,
    added: Seq<u64>,
)
    requires
        added.len() == planned_highlights(hit, collapse_armed).len(),
    ensures
        ({
            let shown = selection_after_release(highlights, Release::Click, true).0 + added;
            &&& hit is Face ==> shown.len() == hit->boundary@.len()
            &&& hit is Edge && !collapse_armed ==> shown.len() == 1
            &&& hit is Edge && collapse_armed ==> shown.len() == 0
            &&& hit is Miss ==> shown.len() == 0
        }),
{
}

/// Two misses in a row: the first retires the whole previous selection, the
/// second finds nothing to retire, and the selection is empty after each. A
/// miss marks no edge, so no entity is added for it.
pub proof fn lemma_repeated_miss(
    highlights: Seq<u64>,
    collapse_armed: bool,
    added_first: Seq<u64>,
    added_second: Seq<u64>,
)
    requires
        added_first.len() == planned_highlights(MeshHit::Miss, collapse_armed).len(),
        added_second.len() == planned_highlights(MeshHit::Miss, collapse_armed).len(),
    ensures
        ({
            let (first, retired_first) = selection_after_release(
                highlights,
                Release::Click,
                true,
            );
            let shown_first = first + added_first;
            let (second, retired_second) = selection_after_release(
                shown_first,
                Release::Click,
                true,
            );
            let shown_second = second + added_second;
            &&& shown_first == Seq::<u64>::empty()
            &&& retired_first == highlights
            &&& shown_second == Seq::<u64>::empty()
            &&& retired_second == Seq::<u64>::empty()
        }),
{
    assert(Seq::<u64>::empty() + added_first =~= Seq::<u64>::empty());
    assert(Seq::<u64>::empty() + added_second =~= Seq::<u64>::empty());
}

/// An edge hit below its middle and one above it collapse the edge in
/// opposite directions: the endpoint nearer the hit is the one removed.
pub proof fn lemma_collapse_directions(v0: usize, v1: usize, u_near_first: u32, u_near_second: u32)
    requires
        u_near_first < HIT_PARAM_HALF <= u_near_second,
    ensures
        collapse_pair(v0, v1, u_near_first) == (v1, v0),
        collapse_pair(v0, v1, u_near_second) == (v0, v1),
{
}

} // verus!
