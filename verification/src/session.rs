//! The editing session: the drawing, the selection, undo and redo, the
//! layer panel, the active tool, the command line and its history, and
//! whether the drawing has changed since it was saved.
use vstd::prelude::*;
use crate::document::{
    text_of, companion_layers, doc_wf, ids_of, layer_named, layer_zero, seed_default_layers, without_id,
    BoundingBox, DocModel, Document, Entity, EntityId, KindTag, Layer, LayerModel,
};
use crate::document::Rgb;
use crate::text::{decimal, push_decimal};
use crate::tools::ToolKind;
use crate::command::{Command, CommandModel};
use crate::history::{
    all_docs, lemma_redo_after_undo, lemma_undo_after_snapshot, redo_spec, snapshot_spec,
    undo_spec, History, HistoryModel,
};

verus! {

/// An editing session. The origin marker is an entity that cannot be
/// selected or erased.
///
/// The active tool is kept with the entities a modify tool acts on and the
/// text of the distance or radius typed for it; the command line keeps the
/// last command that can be repeated and the log of typed lines.
pub struct Session {
    pub document: Document,
    pub selection: Vec<EntityId>,
    pub history: History,
    pub origin_id: EntityId,
    pub saved_depth: usize,
    pub tool: ToolKind,
    pub tool_ids: Vec<EntityId>,
    pub tool_value: Option<String>,
    pub last_command: Option<String>,
    pub command_log: Vec<String>,
}

/// A session as contracts see it.
pub struct SessionModel {
    pub document: DocModel,
    pub selection: Seq<EntityId>,
    pub history: HistoryModel,
    pub origin_id: EntityId,
    pub saved_depth: usize,
    pub tool: ToolKind,
    pub tool_ids: Seq<EntityId>,
    pub tool_value: Option<Seq<char>>,
    pub last_command: Option<Seq<char>>,
    pub command_log: Seq<Seq<char>>,
}

/// The view of an optional text.
pub open spec fn opt_text(t: Option<String>) -> Option<Seq<char>> {
    match t {
        Some(s) => Some(s@),
        None => None,
    }
}

impl View for Session {
    type V = SessionModel;

    open spec fn view(&self) -> SessionModel {
        SessionModel {
            document: self.document@,
            selection: self.selection@,
            history: self.history@,
            origin_id: self.origin_id,
            saved_depth: self.saved_depth,
            tool: self.tool,
            tool_ids: self.tool_ids@,
            tool_value: opt_text(self.tool_value),
            last_command: opt_text(self.last_command),
            command_log: self.command_log@.map_values(|l: String| l@),
        }
    }
}

/// The drawing holds the origin marker.
pub open spec fn has_origin(d: DocModel, origin: EntityId) -> bool {
    ids_of(d.entities).contains(origin)
}

/// Every drawing of the session, current or kept for undo and redo, is well
/// formed and holds the origin marker.
pub open spec fn session_wf(s: SessionModel) -> bool {
    &&& doc_wf(s.document)
    &&& has_origin(s.document, s.origin_id)
    &&& all_docs(s.history, |d: DocModel| doc_wf(d) && has_origin(d, s.origin_id))
}

/// The session after adding an entity: the drawing is saved for undo, then
/// the entity goes on the current layer with the next id.
pub open spec fn add_spec(s: SessionModel, kind: KindTag, bbox: Option<BoundingBox>) -> SessionModel {
    let id = EntityId(s.document.next_id);
    SessionModel {
        document: DocModel {
            entities: s.document.entities.push(
                Entity { id, layer: s.document.current_layer, kind, bbox, text: None },
            ),
            next_id: (s.document.next_id + 1) as u64,
            ..s.document
        },
        history: snapshot_spec(s.history, s.document),
        ..s
    }
}

/// The session after placing a text with `content` and extent `bbox`: the
/// drawing is saved for undo, then a text entity holding the content goes on
/// the current layer with the next id.
pub open spec fn place_text_spec(s: SessionModel, content: Seq<char>, bbox: Option<BoundingBox>) -> SessionModel {
    let id = EntityId(s.document.next_id);
    SessionModel {
        document: DocModel {
            entities: s.document.entities.push(
                Entity {
                    id,
                    layer: s.document.current_layer,
                    kind: KindTag::Text,
                    bbox,
                    text: Some(s.document.texts.len() as usize),
                },
            ),
            next_id: (s.document.next_id + 1) as u64,
            texts: s.document.texts.push(content),
            ..s.document
        },
        history: snapshot_spec(s.history, s.document),
        ..s
    }
}

/// The session after undo: back to the drawing saved last, selection
/// cleared; unchanged when there is nothing to undo.
pub open spec fn undo_session(s: SessionModel) -> SessionModel {
    match undo_spec(s.history, s.document) {
        None => s,
        Some((d, h)) => SessionModel { document: d, history: h, selection: Seq::empty(), ..s },
    }
}

/// The session after redo: forward to the drawing undone last, selection
/// cleared; unchanged when there is nothing to redo.
pub open spec fn redo_session(s: SessionModel) -> SessionModel {
    match redo_spec(s.history, s.document) {
        None => s,
        Some((d, h)) => SessionModel { document: d, history: h, selection: Seq::empty(), ..s },
    }
}

/// Whether erasing with selection `sel` removes the entity `e`: it is
/// selected and is not the origin marker.
pub open spec fn erased(e: Entity, sel: Seq<EntityId>, origin: EntityId) -> bool {
    sel.contains(e.id) && e.id != origin
}

/// The session after erasing the selection: nothing happens when the
/// selection is empty; otherwise the drawing is saved for undo, every
/// selected entity but the origin marker goes, and the selection is cleared.
pub open spec fn erase_spec(s: SessionModel) -> SessionModel {
    if s.selection.len() == 0 {
        s
    } else {
        SessionModel {
            document: DocModel {
                entities: s.document.entities.filter(
                    |e: Entity| !erased(e, s.selection, s.origin_id),
                ),
                ..s.document
            },
            history: snapshot_spec(s.history, s.document),
            selection: Seq::empty(),
            ..s
        }
    }
}

/// The session after selecting all: every entity but the origin marker, in
/// drawing order.
pub open spec fn select_all_spec(s: SessionModel) -> SessionModel {
    SessionModel { selection: ids_of(without_id(s.document.entities, s.origin_id)), ..s }
}

/// The session after `LAYER SET name`: the first layer called `name`
/// becomes current; nothing changes when there is none.
pub open spec fn set_layer_spec(s: SessionModel, name: Seq<char>) -> SessionModel {
    match layer_named(s.document.layers, name) {
        Some(i) => SessionModel { document: DocModel { current_layer: i as usize, ..s.document }, ..s },
        None => s,
    }
}

/// The session after `LAYER NEW name`: a new visible, unlocked, white layer
/// called `name` is added and becomes current.
pub open spec fn new_layer_spec(s: SessionModel, name: Seq<char>) -> SessionModel {
    SessionModel {
        document: DocModel {
            layers: s.document.layers.push(
                LayerModel {
                    name,
                    color: crate::document::Rgb { r: 255, g: 255, b: 255 },
                    visible: true,
                    locked: false,
                },
            ),
            current_layer: s.document.layers.len() as usize,
            ..s.document
        },
        ..s
    }
}

/// What a command does to the session, for the commands that act on the
/// drawing, the selection and the layers alone; `None` for the others.
pub open spec fn command_effect(s: SessionModel, c: CommandModel) -> Option<SessionModel> {
    match c {
        CommandModel::Undo => Some(undo_session(s)),
        CommandModel::Redo => Some(redo_session(s)),
        CommandModel::Erase => Some(erase_spec(s)),
        CommandModel::SelectAll => Some(select_all_spec(s)),
        CommandModel::LayerSet(n) => Some(set_layer_spec(s, n)),
        CommandModel::LayerNew(n) => Some(new_layer_spec(s, n)),
        _ => None,
    }
}

/// The position of the first `id` in `sel`, if any.
pub open spec fn first_pos(sel: Seq<EntityId>, id: EntityId) -> Option<int> {
    if sel.contains(id) {
        Some(
            choose|i: int|
                0 <= i < sel.len() && sel[i] == id && forall|j: int| 0 <= j < i ==> sel[j] != id,
        )
    } else {
        None
    }
}

/// The selection after clicking `id`: unchanged for the origin marker;
/// otherwise `id` leaves the selection if it is in it, else joins at the end.
pub open spec fn toggle_spec(sel: Seq<EntityId>, origin: EntityId, id: EntityId) -> Seq<EntityId> {
    if id == origin {
        sel
    } else {
        match first_pos(sel, id) {
            Some(i) => sel.remove(i),
            None => sel.push(id),
        }
    }
}

/// The drawing's name for display: the file name, or "Untitled" when the
/// drawing was never saved, with `*` when it has unsaved changes.
pub open spec fn label_spec(file_name: Option<Seq<char>>, dirty: bool) -> Seq<char> {
    (match file_name {
        Some(n) => n,
        None => "Untitled"@,
    }) + (if dirty {
        "*"@
    } else {
        Seq::empty()
    })
}

proof fn lemma_first_pos(sel: Seq<EntityId>, id: EntityId)
    requires
        sel.contains(id),
    ensures
        first_pos(sel, id) matches Some(i) && 0 <= i < sel.len() && sel[i] == id && forall|j: int|
            0 <= j < i ==> sel[j] != id,
{
    let k = choose|k: int| 0 <= k < sel.len() && sel[k] == id;
    lemma_min_pos(sel, id, k);
}

proof fn lemma_min_pos(sel: Seq<EntityId>, id: EntityId, k: int)
    requires
        0 <= k < sel.len(),
        sel[k] == id,
    ensures
        exists|i: int|
            0 <= i < sel.len() && sel[i] == id && forall|j: int| 0 <= j < i ==> sel[j] != id,
    decreases k,
{
    if exists|j: int| 0 <= j < k && sel[j] == id {
        let j = choose|j: int| 0 <= j < k && sel[j] == id;
        lemma_min_pos(sel, id, j);
    } else {
        assert(0 <= k < sel.len() && sel[k] == id && forall|j: int| 0 <= j < k ==> sel[j] != id);
    }
}

fn selected(sel: &Vec<EntityId>, id: EntityId) -> (r: bool)
    ensures
        r == sel@.contains(id),
{
    let mut i: usize = 0;
    while i < sel.len()
        invariant
            i <= sel.len(),
            forall|k: int| 0 <= k < i ==> sel@[k] != id,
        decreases sel.len() - i,
    {
        if sel[i] == id {
            assert(sel@[i as int] == id);
            return true;
        }
        i = i + 1;
    }
    false
}

impl Session {
    /// A fresh session: an empty drawing with layer "0" and the four
    /// companion layers, layer "0" current, and the origin marker as its
    /// first entity; nothing selected, nothing to undo, nothing unsaved; the
    /// select tool active and the command line empty.
    pub fn new() -> (s: Session)
        ensures
            session_wf(s@),
            s@.origin_id == EntityId(1),
            s@.document == (DocModel {
                entities: seq![
                    Entity {
                        id: EntityId(1),
                        layer: 0,
                        kind: KindTag::Point,
                        bbox: Some(BoundingBox { min_x: 0, min_y: 0, max_x: 0, max_y: 0 }),
                        text: None,
                    },
                ],
                layers: seq![layer_zero()] + companion_layers(),
                current_layer: 0,
                next_id: 2,
                texts: Seq::empty(),
            }),
            s@.selection == Seq::<EntityId>::empty(),
            s@.history.undo == Seq::<DocModel>::empty(),
            s@.history.redo == Seq::<DocModel>::empty(),
            s@.saved_depth == 0,
            s@.tool == ToolKind::Select,
            s@.tool_ids == Seq::<EntityId>::empty(),
            s@.tool_value is None,
            s@.last_command is None,
            s@.command_log == Seq::<Seq<char>>::empty(),
    {
        let mut document = Document::new();
        seed_default_layers(&mut document);
        let origin_id = document.add(
            KindTag::Point,
            Some(BoundingBox { min_x: 0, min_y: 0, max_x: 0, max_y: 0 }),
        );
        let s = Session {
            document,
            selection: Vec::new(),
            history: History::new(),
            origin_id,
            saved_depth: 0,
            tool: ToolKind::Select,
            tool_ids: Vec::new(),
            tool_value: None,
            last_command: None,
            command_log: Vec::new(),
        };
        assert(s@.document.entities =~= seq![
            Entity {
                id: EntityId(1),
                layer: 0,
                kind: KindTag::Point,
                bbox: Some(BoundingBox { min_x: 0, min_y: 0, max_x: 0, max_y: 0 }),
                text: None,
            },
        ]);
        assert(ids_of(s@.document.entities)[0] == origin_id);
        assert(s@.selection =~= Seq::<EntityId>::empty());
        assert(s@.tool_ids =~= Seq::<EntityId>::empty());
        assert(s@.command_log =~= Seq::<Seq<char>>::empty());
        s
    }

    /// Adds an entity of the given kind and extent, saving the drawing for
    /// undo first, and returns its id.
    pub fn add_entity(&mut self, kind: KindTag, bbox: Option<BoundingBox>) -> (id: EntityId)
        requires
            old(self).document.next_id < u64::MAX,
        ensures
            id == EntityId(old(self)@.document.next_id),
            final(self)@ == add_spec(old(self)@, kind, bbox),
            session_wf(old(self)@) ==> session_wf(final(self)@),
    {
        self.history.snapshot(&self.document);
        let ghost before = self.document@.entities;
        let id = self.document.add(kind, bbox);
        proof {
            lemma_push_keeps_id(before, self.document@.entities.last(), old(self).origin_id);
        }
        id
    }

    /// Places a text entity holding `content`, with extent `bbox`, saving
    /// the drawing for undo first, and returns its id.
    pub fn place_text(&mut self, content: String, bbox: Option<BoundingBox>) -> (id: EntityId)
        requires
            old(self).document.next_id < u64::MAX,
        ensures
            id == EntityId(old(self)@.document.next_id),
            final(self)@ == place_text_spec(old(self)@, content@, bbox),
            text_of(final(self)@.document, final(self)@.document.entities.last()) == Some(content@),
            session_wf(old(self)@) ==> session_wf(final(self)@),
    {
        self.history.snapshot(&self.document);
        let ghost before = self.document@.entities;
        let k = self.document.texts.len();
        let id = self.document.add_text(content, bbox);
        proof {
            lemma_push_keeps_id(before, self.document@.entities.last(), old(self).origin_id);
            assert(self@.document.entities.last().text == Some(k));
            assert(self@.document.texts[k as int] == content@);
        }
        id
    }

    /// Saves the drawing for undo before an edit made to it directly.
    pub fn begin_edit(&mut self)
        ensures
            final(self)@ == (SessionModel { history: snapshot_spec(old(self)@.history, old(self)@.document), ..old(self)@ }),
            session_wf(old(self)@) ==> session_wf(final(self)@),
    {
        self.history.snapshot(&self.document);
    }

    /// Goes back to the drawing saved last, clearing the selection.
    pub fn undo(&mut self)
        ensures
            final(self)@ == undo_session(old(self)@),
            session_wf(old(self)@) ==> session_wf(final(self)@),
    {
        match self.history.undo(&self.document) {
            Some(prev) => {
                self.document = prev;
                self.selection = Vec::new();
                assert(self@.selection =~= Seq::<EntityId>::empty());
            },
            None => {},
        }
    }

    /// Goes forward to the drawing undone last, clearing the selection.
    pub fn redo(&mut self)
        ensures
            final(self)@ == redo_session(old(self)@),
            session_wf(old(self)@) ==> session_wf(final(self)@),
    {
        match self.history.redo(&self.document) {
            Some(next) => {
                self.document = next;
                self.selection = Vec::new();
                assert(self@.selection =~= Seq::<EntityId>::empty());
            },
            None => {},
        }
    }

    /// Erases the selected entities (never the origin marker), saving the
    /// drawing for undo first, and clears the selection.
    pub fn erase_selection(&mut self)
        ensures
            final(self)@ == erase_spec(old(self)@),
            session_wf(old(self)@) ==> session_wf(final(self)@),
    {
        if self.selection.len() == 0 {
            return;
        }
        self.history.snapshot(&self.document);
        let ghost es = self.document.entities@;
        let ghost sel = self.selection@;
        let ghost keep = |e: Entity| !erased(e, sel, self.origin_id);
        let mut kept: Vec<Entity> = Vec::new();
        let mut i: usize = 0;
        while i < self.document.entities.len()
            invariant
                i <= self.document.entities.len(),
                es == self.document.entities@,
                sel == self.selection@,
                keep == (|e: Entity| !erased(e, sel, self.origin_id)),
                kept@ == es.subrange(0, i as int).filter(keep),
                self.document@ == old(self)@.document,
                session_wf(old(self)@) ==> forall|k: int|
                    0 <= k < kept@.len() ==> (#[trigger] kept@[k]).id.0 < self.document.next_id,
            decreases self.document.entities.len() - i,
        {
            let e = self.document.entities[i];
            proof {
                assert(es.subrange(0, i + 1) =~= es.subrange(0, i as int).push(e));
                es.subrange(0, i as int).lemma_filter_push(e, keep);
            }
            if !(selected(&self.selection, e.id) && e.id != self.origin_id) {
                kept.push(e);
            }
            i = i + 1;
        }
        assert(es.subrange(0, es.len() as int) =~= es);
        self.document.entities = kept;
        self.selection = Vec::new();
        assert(self@.selection =~= Seq::<EntityId>::empty());
        proof {
            lemma_erase_keeps_origin(old(self)@);
            if session_wf(old(self)@) {
                crate::document::lemma_filter_unique(es, keep);
                assert forall|k: int| 0 <= k < self@.document.entities.len() implies ((#[trigger] self@.document.entities[k]).text matches Some(t)
                    ==> t < self@.document.texts.len()) by {
                    assert(es.contains(self@.document.entities[k]));
                }
            }
        }
    }

    /// Selects every entity but the origin marker, in drawing order.
    pub fn select_all(&mut self)
        ensures
            final(self)@ == select_all_spec(old(self)@),
    {
        let ghost es = self.document.entities@;
        let ghost keep = |e: Entity| e.id != self.origin_id;
        let mut ids: Vec<EntityId> = Vec::new();
        let mut i: usize = 0;
        while i < self.document.entities.len()
            invariant
                i <= self.document.entities.len(),
                es == self.document.entities@,
                keep == (|e: Entity| e.id != self.origin_id),
                ids@ == ids_of(es.subrange(0, i as int).filter(keep)),
            decreases self.document.entities.len() - i,
        {
            let e = self.document.entities[i];
            proof {
                assert(es.subrange(0, i + 1) =~= es.subrange(0, i as int).push(e));
                es.subrange(0, i as int).lemma_filter_push(e, keep);
            }
            if e.id != self.origin_id {
                assert(ids_of(es.subrange(0, i as int).filter(keep).push(e)) =~= ids@.push(e.id));
                ids.push(e.id);
            }
            i = i + 1;
        }
        assert(es.subrange(0, es.len() as int) =~= es);
        self.selection = ids;
    }

    /// Adds `id` to the selection, or takes it out when it is already in;
    /// the origin marker is never selected.
    pub fn toggle_selection(&mut self, id: EntityId)
        ensures
            final(self)@ == (SessionModel {
                selection: toggle_spec(old(self)@.selection, old(self)@.origin_id, id),
                ..old(self)@
            }),
    {
        if id == self.origin_id {
            return;
        }
        let mut i: usize = 0;
        while i < self.selection.len()
            invariant
                i <= self.selection.len(),
                self@ == old(self)@,
                id != self.origin_id,
                forall|k: int| 0 <= k < i ==> self.selection@[k] != id,
            decreases self.selection.len() - i,
        {
            if self.selection[i] == id {
                proof {
                    lemma_first_pos(self.selection@, id);
                    let w = first_pos(self.selection@, id)->0;
                    if w < i {
                        assert(self.selection@[w] != id);
                    } else if w > i {
                        assert(self.selection@[i as int] != id);
                    }
                    assert(w == i);
                }
                self.selection.remove(i);
                return;
            }
            i = i + 1;
        }
        self.selection.push(id);
    }

    /// Whether the drawing changed since it was last saved.
    pub fn is_dirty(&self) -> (r: bool)
        ensures
            r == (self@.history.undo.len() != self@.saved_depth),
    {
        self.history.undo_depth() != self.saved_depth
    }

    /// Records that the drawing as it stands has been saved.
    pub fn mark_saved(&mut self)
        ensures
            final(self)@ == (SessionModel { saved_depth: old(self)@.history.undo.len() as usize, ..old(self)@ }),
    {
        self.saved_depth = self.history.undo_depth();
    }

    /// Bare document name, with a trailing `*` when dirty, given the file
    /// name it was last saved under.
    pub fn document_label(&self, file_name: Option<&str>) -> (r: String)
        ensures
            r@ == label_spec(
                match file_name {
                    Some(n) => Some(n@),
                    None => None,
                },
                self@.history.undo.len() != self@.saved_depth,
            ),
    {
        let mut s = match file_name {
            Some(n) => String::from_str(n),
            None => String::from_str("Untitled"),
        };
        if self.is_dirty() {
            s.append("*");
        }
        s
    }

    /// The window title: the product name and the document label.
    pub fn window_title(&self, file_name: Option<&str>) -> (r: String)
        ensures
            r@ == "eiderFLAT \u{2014} "@ + label_spec(
                match file_name {
                    Some(n) => Some(n@),
                    None => None,
                },
                self@.history.undo.len() != self@.saved_depth,
            ),
    {
        let mut s = String::from_str("eiderFLAT \u{2014} ");
        let label = self.document_label(file_name);
        s.append(label.as_str());
        s
    }

    /// Makes the first layer called `name` current (the `LAYER SET`
    /// command); nothing changes when there is none.
    pub fn set_layer(&mut self, name: &str)
        ensures
            final(self)@ == set_layer_spec(old(self)@, name@),
            session_wf(old(self)@) ==> session_wf(final(self)@),
    {
        self.document.set_current_layer(name);
    }

    /// Adds a new layer called `name` and makes it current (the `LAYER NEW`
    /// command).
    pub fn new_layer(&mut self, name: String)
        requires
            old(self).document.layers.len() < usize::MAX,
        ensures
            final(self)@ == new_layer_spec(old(self)@, name@),
            session_wf(old(self)@) ==> session_wf(final(self)@),
    {
        let idx = self.document.add_layer(Layer::new(name));
        self.document.current_layer = idx;
    }

    /// Adds a layer called `Layer{n}`, `n` being the number of layers
    /// before it (the layer panel's "New Layer" button); the current layer
    /// stays.
    pub fn add_numbered_layer(&mut self) -> (i: usize)
        requires
            old(self).document.layers.len() < usize::MAX,
        ensures
            i == old(self)@.document.layers.len(),
            final(self)@ == add_numbered_layer_spec(old(self)@),
            session_wf(old(self)@) ==> session_wf(final(self)@),
    {
        let n = self.document.layers.len();
        let mut name = String::from_str("Layer");
        proof {
            reveal_strlit("Layer");
        }
        push_decimal(&mut name, n);
        let i = self.document.add_layer(Layer::new(name));
        i
    }

    /// Number of entities on each layer, by layer position.
    pub fn layer_counts(&self) -> (c: Vec<usize>)
        ensures
            c@.len() == self@.document.layers.len(),
            forall|j: int|
                0 <= j < c@.len() ==> #[trigger] c@[j] as nat == count_on(self@.document.entities, j),
    {
        let n = self.document.layers.len();
        let mut c: Vec<usize> = Vec::new();
        let mut j: usize = 0;
        while j < n
            invariant
                n == self.document.layers@.len(),
                j <= n,
                c@.len() == j,
                forall|m: int| 0 <= m < j ==> #[trigger] c@[m] == 0,
            decreases n - j,
        {
            c.push(0);
            j = j + 1;
        }
        let ghost es = self.document.entities@;
        let mut k: usize = 0;
        while k < self.document.entities.len()
            invariant
                es == self.document.entities@,
                n == self.document.layers@.len(),
                k <= es.len(),
                c@.len() == n,
                forall|m: int| 0 <= m < n ==> #[trigger] c@[m] as nat == count_on(es.take(k as int), m),
                forall|m: int| 0 <= m < n ==> #[trigger] c@[m] <= k,
            decreases es.len() - k,
        {
            let l = self.document.entities[k].layer;
            proof {
                assert(es.take(k + 1).drop_last() =~= es.take(k as int));
                assert forall|m: int| 0 <= m < n implies count_on(es.take(k + 1), m) == count_on(es.take(k as int), m)
                    + (if es[k as int].layer == m { 1nat } else { 0nat }) by {
                    assert(es.take(k + 1).last() == es[k as int]);
                }
            }
            if l < n {
                let v = c[l];
                c.set(l, v + 1);
            }
            k = k + 1;
        }
        assert(es.take(es.len() as int) =~= es);
        c
    }

    /// Makes the layer at position `idx` current; nothing changes when there
    /// is no such layer.
    pub fn set_current_layer_index(&mut self, idx: usize)
        ensures
            final(self)@ == (if idx < old(self)@.document.layers.len() {
                SessionModel { document: DocModel { current_layer: idx, ..old(self)@.document }, ..old(self)@ }
            } else {
                old(self)@
            }),
            session_wf(old(self)@) ==> session_wf(final(self)@),
    {
        if idx < self.document.layers.len() {
            self.document.current_layer = idx;
        }
    }

    /// Shows or hides the layer at position `idx`.
    pub fn set_layer_visible(&mut self, idx: usize, on: bool)
        ensures
            final(self)@ == (if idx < old(self)@.document.layers.len() {
                with_layer(old(self)@, idx as int, LayerModel { visible: on, ..old(self)@.document.layers[idx as int] })
            } else {
                old(self)@
            }),
            session_wf(old(self)@) ==> session_wf(final(self)@),
    {
        if idx < self.document.layers.len() {
            let ghost before = self.document.layers@;
            self.document.layers[idx].visible = on;
            proof {
                lemma_layer_update(before, self.document.layers@, idx as int);
            }
        }
    }

    /// Renames the layer at position `idx`.
    pub fn rename_layer(&mut self, idx: usize, name: String)
        ensures
            final(self)@ == (if idx < old(self)@.document.layers.len() {
                with_layer(old(self)@, idx as int, LayerModel { name: name@, ..old(self)@.document.layers[idx as int] })
            } else {
                old(self)@
            }),
            session_wf(old(self)@) ==> session_wf(final(self)@),
    {
        if idx < self.document.layers.len() {
            let ghost before = self.document.layers@;
            self.document.layers[idx].name = name;
            proof {
                lemma_layer_update(before, self.document.layers@, idx as int);
            }
        }
    }

    /// Recolours the layer at position `idx`.
    pub fn set_layer_color(&mut self, idx: usize, color: Rgb)
        ensures
            final(self)@ == (if idx < old(self)@.document.layers.len() {
                with_layer(old(self)@, idx as int, LayerModel { color, ..old(self)@.document.layers[idx as int] })
            } else {
                old(self)@
            }),
            session_wf(old(self)@) ==> session_wf(final(self)@),
    {
        if idx < self.document.layers.len() {
            let ghost before = self.document.layers@;
            self.document.layers[idx].color = color;
            proof {
                lemma_layer_update(before, self.document.layers@, idx as int);
            }
        }
    }

    /// Deletes the layer at position `idx`, unless it is layer 0 or the
    /// current layer: the drawing is saved for undo, the layer's entities
    /// move to layer 0, entities on later layers follow their layer down one
    /// position, and the current layer stays the same layer.
    pub fn delete_layer(&mut self, idx: usize) -> (deleted: bool)
        ensures
            deleted == deletable(old(self)@, idx),
            final(self)@ == (if deleted {
                delete_layer_spec(old(self)@, idx)
            } else {
                old(self)@
            }),
            session_wf(old(self)@) ==> session_wf(final(self)@),
    {
        if !(idx != 0 && idx != self.document.current_layer && idx < self.document.layers.len()) {
            return false;
        }
        self.history.snapshot(&self.document);
        let ghost es = self.document.entities@;
        let mut k: usize = 0;
        while k < self.document.entities.len()
            invariant
                es == old(self)@.document.entities,
                es.len() == self.document.entities@.len(),
                k <= es.len(),
                idx != 0,
                idx != old(self).document.current_layer,
                idx < old(self).document.layers.len(),
                self@ == (SessionModel {
                    document: DocModel { entities: self@.document.entities, ..old(self)@.document },
                    history: snapshot_spec(old(self)@.history, old(self)@.document),
                    ..old(self)@
                }),
                forall|m: int| 0 <= m < k ==> #[trigger] self.document.entities@[m] == moved_entity(es[m], idx),
                forall|m: int| k <= m < es.len() ==> #[trigger] self.document.entities@[m] == es[m],
            decreases es.len() - k,
        {
            let l = self.document.entities[k].layer;
            let nl: usize = if l == idx {
                0
            } else if l > idx {
                l - 1
            } else {
                l
            };
            self.document.entities[k].layer = nl;
            k = k + 1;
        }
        let ghost before_layers = self.document.layers@;
        self.document.layers.remove(idx);
        if idx < self.document.current_layer {
            self.document.current_layer = self.document.current_layer - 1;
        }
        proof {
            assert(self.document.entities@ =~= es.map_values(|e: Entity| moved_entity(e, idx)));
            assert(self@.document.layers =~= old(self)@.document.layers.remove(idx as int));
            assert(ids_of(self.document.entities@) =~= ids_of(es));
        }
        true
    }

    /// Carries out `cmd` when it acts on the drawing, the selection or the
    /// layers alone (undo, redo, erase, select all, layer set and new), and
    /// returns whether it did; other commands are left to the caller.
    pub fn apply_command(&mut self, cmd: &Command) -> (done: bool)
        requires
            old(self).document.layers.len() < usize::MAX,
        ensures
            done == command_effect(old(self)@, cmd@) is Some,
            done ==> final(self)@ == command_effect(old(self)@, cmd@)->0,
            !done ==> final(self)@ == old(self)@,
            session_wf(old(self)@) ==> session_wf(final(self)@),
    {
        match cmd {
            Command::Undo => {
                self.undo();
                true
            },
            Command::Redo => {
                self.redo();
                true
            },
            Command::Erase => {
                self.erase_selection();
                true
            },
            Command::SelectAll => {
                self.select_all();
                true
            },
            Command::LayerSet(name) => {
                self.set_layer(name.as_str());
                true
            },
            Command::LayerNew(name) => {
                self.new_layer(name.clone());
                true
            },
            _ => false,
        }
    }
}

/// A layer called `Layer{n}`: white, visible, unlocked.
pub open spec fn numbered_layer(n: nat) -> LayerModel {
    LayerModel { name: "Layer"@ + decimal(n), color: Rgb { r: 255, g: 255, b: 255 }, visible: true, locked: false }
}

/// The session after the layer panel's "New Layer".
pub open spec fn add_numbered_layer_spec(s: SessionModel) -> SessionModel {
    SessionModel {
        document: DocModel {
            layers: s.document.layers.push(numbered_layer(s.document.layers.len())),
            ..s.document
        },
        ..s
    }
}

/// Number of entities of `es` on layer `l`.
pub open spec fn count_on(es: Seq<Entity>, l: int) -> nat
    decreases es.len(),
{
    if es.len() == 0 {
        0
    } else {
        count_on(es.drop_last(), l) + if es.last().layer == l {
            1nat
        } else {
            0nat
        }
    }
}

/// The session with layer `i` replaced by `l`.
pub open spec fn with_layer(s: SessionModel, i: int, l: LayerModel) -> SessionModel {
    SessionModel { document: DocModel { layers: s.document.layers.update(i, l), ..s.document }, ..s }
}

/// Whether the layer at `idx` can be deleted: it exists and is neither
/// layer 0 nor the current layer.
pub open spec fn deletable(s: SessionModel, idx: usize) -> bool {
    idx != 0 && idx != s.document.current_layer && idx < s.document.layers.len()
}

/// Where an entity on layer `l` goes when the layer at `idx` is deleted.
pub open spec fn moved_layer(l: usize, idx: usize) -> usize {
    if l == idx {
        0
    } else if l > idx {
        (l - 1) as usize
    } else {
        l
    }
}

/// An entity after the layer at `idx` is deleted.
pub open spec fn moved_entity(e: Entity, idx: usize) -> Entity {
    Entity { layer: moved_layer(e.layer, idx), ..e }
}

/// The session after deleting the (deletable) layer at `idx`.
pub open spec fn delete_layer_spec(s: SessionModel, idx: usize) -> SessionModel {
    SessionModel {
        document: DocModel {
            entities: s.document.entities.map_values(|e: Entity| moved_entity(e, idx)),
            layers: s.document.layers.remove(idx as int),
            current_layer: if idx < s.document.current_layer {
                (s.document.current_layer - 1) as usize
            } else {
                s.document.current_layer
            },
            ..s.document
        },
        history: snapshot_spec(s.history, s.document),
        ..s
    }
}

proof fn lemma_layer_update(before: Seq<Layer>, after: Seq<Layer>, i: int)
    requires
        0 <= i < before.len(),
        after.len() == before.len(),
        forall|j: int| 0 <= j < before.len() && j != i ==> after[j] == before[j],
    ensures
        after.map_values(|l: Layer| l@) == before.map_values(|l: Layer| l@).update(i, after[i]@),
{
    assert(after.map_values(|l: Layer| l@) =~= before.map_values(|l: Layer| l@).update(i, after[i]@));
}

proof fn lemma_push_keeps_id(es: Seq<Entity>, e: Entity, id: EntityId)
    ensures
        ids_of(es).contains(id) ==> ids_of(es.push(e)).contains(id),
        ids_of(es.push(e)) == ids_of(es).push(e.id),
{
    assert(ids_of(es.push(e)) =~= ids_of(es).push(e.id));
    if ids_of(es).contains(id) {
        let k = choose|k: int| 0 <= k < ids_of(es).len() && ids_of(es)[k] == id;
        assert(ids_of(es.push(e))[k] == id);
    }
}

/// Undo right after adding an entity gives back the drawing as it was.
pub proof fn lemma_undo_add(s: SessionModel, kind: KindTag, bbox: Option<BoundingBox>)
    ensures
        undo_session(add_spec(s, kind, bbox)).document == s.document,
        undo_session(add_spec(s, kind, bbox)).history.undo == s.history.undo,
{
    lemma_undo_after_snapshot(s.history, s.document, add_spec(s, kind, bbox).document);
}

/// Undo right after erasing a non-empty selection gives back the drawing as
/// it was.
pub proof fn lemma_undo_erase(s: SessionModel)
    requires
        s.selection.len() > 0,
    ensures
        undo_session(erase_spec(s)).document == s.document,
        undo_session(erase_spec(s)).history.undo == s.history.undo,
{
    lemma_undo_after_snapshot(s.history, s.document, erase_spec(s).document);
}

/// Redo right after an undo gives back the drawing and the history as they
/// were before the undo.
pub proof fn lemma_redo_undo(s: SessionModel)
    requires
        s.history.undo.len() > 0,
    ensures
        redo_session(undo_session(s)).document == s.document,
        redo_session(undo_session(s)).history == s.history,
{
    lemma_redo_after_undo(s.history, s.document);
}

/// Erasing never removes the origin marker.
pub proof fn lemma_erase_keeps_origin(s: SessionModel)
    ensures
        ids_of(s.document.entities).contains(s.origin_id) ==> ids_of(
            erase_spec(s).document.entities,
        ).contains(s.origin_id),
{
    if ids_of(s.document.entities).contains(s.origin_id) && s.selection.len() > 0 {
        let es = s.document.entities;
        let keep = |e: Entity| !erased(e, s.selection, s.origin_id);
        let k = choose|k: int| 0 <= k < ids_of(es).len() && ids_of(es)[k] == s.origin_id;
        lemma_filter_keeps(es, keep, k);
        let kept = es.filter(keep);
        let j = choose|j: int| 0 <= j < kept.len() && kept[j] == es[k];
        assert(ids_of(kept)[j] == s.origin_id);
    }
}

proof fn lemma_filter_keeps(es: Seq<Entity>, keep: spec_fn(Entity) -> bool, k: int)
    requires
        0 <= k < es.len(),
        keep(es[k]),
    ensures
        exists|j: int| 0 <= j < es.filter(keep).len() && es.filter(keep)[j] == es[k],
    decreases es.len(),
{
    reveal(Seq::filter);
    if k == es.len() - 1 {
        assert(es.filter(keep) == es.drop_last().filter(keep).push(es.last()));
        let j = es.filter(keep).len() - 1;
        assert(es.filter(keep)[j] == es[k]);
    } else {
        lemma_filter_keeps(es.drop_last(), keep, k);
        let sub = es.drop_last().filter(keep);
        let j = choose|j: int| 0 <= j < sub.len() && sub[j] == es.drop_last()[k];
        if keep(es.last()) {
            assert(es.filter(keep) == sub.push(es.last()));
            assert(es.filter(keep)[j] == es[k]);
        } else {
            assert(es.filter(keep) == sub);
        }
    }
}

/// Clicking an entity twice leaves the selection as it was, when it was not
/// selected before.
pub proof fn lemma_toggle_twice(sel: Seq<EntityId>, origin: EntityId, id: EntityId)
    requires
        !sel.contains(id),
    ensures
        toggle_spec(toggle_spec(sel, origin, id), origin, id) == sel,
{
    if id != origin {
        let t = sel.push(id);
        assert(t[sel.len() as int] == id);
        lemma_first_pos(t, id);
        let w = first_pos(t, id)->0;
        if w < sel.len() {
            assert(sel[w] == id);
        }
        assert(t.remove(sel.len() as int) =~= sel);
    }
}

/// A drawing saved and then changed is dirty, and undoing the change makes
/// it clean again.
pub proof fn lemma_dirty_after_add_clean_after_undo(
    s: SessionModel,
    kind: KindTag,
    bbox: Option<BoundingBox>,
)
    requires
        s.saved_depth == s.history.undo.len(),
    ensures
        add_spec(s, kind, bbox).history.undo.len() != add_spec(s, kind, bbox).saved_depth,
        undo_session(add_spec(s, kind, bbox)).history.undo.len() == undo_session(
            add_spec(s, kind, bbox),
        ).saved_depth,
{
    lemma_undo_after_snapshot(s.history, s.document, add_spec(s, kind, bbox).document);
}

} // verus!
