//! The drawing as the selection logic sees it: entities with their layer,
//! their kind and their extent, and the layer table.
use vstd::prelude::*;

verus! {

/// A stable entity identifier.
#[derive(Clone, Copy, Debug, PartialEq, Eq, Hash, PartialOrd, Ord, Structural)]
pub struct EntityId(pub u64);

/// The kind of an entity, without its geometry.
#[derive(Clone, Copy, Debug, PartialEq, Eq, Structural)]
pub enum KindTag {
    Curve,
    Point,
    Text,
    XLine,
    Ray,
    Insert,
    Hatch,
}

/// An axis-aligned box. Each coordinate is an order key of the world
/// coordinate it stands for: keys compare exactly as the coordinates do.
#[derive(Clone, Copy, Debug, PartialEq, Eq, Structural)]
pub struct BoundingBox {
    pub min_x: i64,
    pub min_y: i64,
    pub max_x: i64,
    pub max_y: i64,
}

/// `inner` lies within `outer`, edges included.
pub open spec fn bbox_inside_spec(inner: BoundingBox, outer: BoundingBox) -> bool {
    inner.min_x >= outer.min_x && inner.max_x <= outer.max_x && inner.min_y >= outer.min_y
        && inner.max_y <= outer.max_y
}

/// The two boxes overlap or touch.
pub open spec fn bbox_intersects_spec(a: BoundingBox, b: BoundingBox) -> bool {
    a.min_x <= b.max_x && a.max_x >= b.min_x && a.min_y <= b.max_y && a.max_y >= b.min_y
}

impl BoundingBox {
    /// Whether the two boxes overlap or touch.
    pub fn intersects(&self, other: &BoundingBox) -> (r: bool)
        ensures
            r == bbox_intersects_spec(*self, *other),
    {
        self.min_x <= other.max_x && self.max_x >= other.min_x && self.min_y <= other.max_y
            && self.max_y >= other.min_y
    }
}

/// An entity: its id, the index of its layer, its kind, its extent
/// (`None` for unbounded entities) and, for a text, the position of its
/// content among the drawing's texts.
#[derive(Clone, Copy, Debug)]
pub struct Entity {
    pub id: EntityId,
    pub layer: usize,
    pub kind: KindTag,
    pub bbox: Option<BoundingBox>,
    pub text: Option<usize>,
}

/// An RGB colour.
#[derive(Clone, Copy, Debug, PartialEq, Eq, Structural)]
pub struct Rgb {
    pub r: u8,
    pub g: u8,
    pub b: u8,
}

/// A layer of the drawing.
#[derive(Clone, Debug)]
pub struct Layer {
    pub name: String,
    pub color: Rgb,
    pub visible: bool,
    pub locked: bool,
}

impl Layer {
    /// A new visible, unlocked, white layer.
    pub fn new(name: String) -> (l: Layer)
        ensures
            l.name@ == name@,
            l.color == (Rgb { r: 255, g: 255, b: 255 }),
            l.visible,
            !l.locked,
    {
        Layer { name, color: Rgb { r: 255, g: 255, b: 255 }, visible: true, locked: false }
    }

    /// The same layer with the given colour.
    pub fn with_color(self, r: u8, g: u8, b: u8) -> (l: Layer)
        ensures
            l.name@ == self.name@,
            l.color == (Rgb { r, g, b }),
            l.visible == self.visible,
            l.locked == self.locked,
    {
        Layer { name: self.name, color: Rgb { r, g, b }, visible: self.visible, locked: self.locked }
    }
}

/// A layer as contracts see it.
pub struct LayerModel {
    pub name: Seq<char>,
    pub color: Rgb,
    pub visible: bool,
    pub locked: bool,
}

impl View for Layer {
    type V = LayerModel;

    open spec fn view(&self) -> LayerModel {
        LayerModel { name: self.name@, color: self.color, visible: self.visible, locked: self.locked }
    }
}

/// The entities of a drawing, in drawing order, its layers, the layer that
/// new entities go on, the id that the next new entity gets, and the
/// contents of its texts.
pub struct Document {
    pub entities: Vec<Entity>,
    pub layers: Vec<Layer>,
    pub current_layer: usize,
    pub next_id: u64,
    pub texts: Vec<String>,
}

/// A drawing as contracts see it.
pub struct DocModel {
    pub entities: Seq<Entity>,
    pub layers: Seq<LayerModel>,
    pub current_layer: usize,
    pub next_id: u64,
    pub texts: Seq<Seq<char>>,
}

impl View for Document {
    type V = DocModel;

    open spec fn view(&self) -> DocModel {
        DocModel {
            entities: self.entities@,
            layers: self.layers@.map_values(|l: Layer| l@),
            current_layer: self.current_layer,
            next_id: self.next_id,
            texts: self.texts@.map_values(|t: String| t@),
        }
    }
}

/// No two entities of `es` share an id.
pub open spec fn unique_ids(es: Seq<Entity>) -> bool {
    forall|i: int, j: int| 0 <= i < j < es.len() ==> (#[trigger] es[i]).id != (#[trigger] es[j]).id
}

/// A drawing is well formed when its current layer exists, every entity id
/// was handed out before `next_id`, no two entities share an id, and every
/// text entity's content exists.
pub open spec fn doc_wf(d: DocModel) -> bool {
    &&& d.current_layer < d.layers.len()
    &&& forall|i: int| 0 <= i < d.entities.len() ==> (#[trigger] d.entities[i]).id.0 < d.next_id
    &&& unique_ids(d.entities)
    &&& forall|i: int|
        0 <= i < d.entities.len() ==> ((#[trigger] d.entities[i]).text matches Some(k) ==> k
            < d.texts.len())
}

/// The content of entity `e` of drawing `d`, when it is a text.
pub open spec fn text_of(d: DocModel, e: Entity) -> Option<Seq<char>> {
    match e.text {
        Some(k) => Some(d.texts[k as int]),
        None => None,
    }
}

/// Filtering keeps ids distinct.
pub proof fn lemma_filter_unique(es: Seq<Entity>, p: spec_fn(Entity) -> bool)
    requires
        unique_ids(es),
    ensures
        unique_ids(es.filter(p)),
        forall|k: int| 0 <= k < es.filter(p).len() ==> es.contains(#[trigger] es.filter(p)[k]),
    decreases es.len(),
{
    reveal(Seq::filter);
    if es.len() > 0 {
        let dl = es.drop_last();
        assert(unique_ids(dl));
        lemma_filter_unique(dl, p);
        let f = dl.filter(p);
        assert forall|k: int| 0 <= k < es.filter(p).len() implies es.contains(#[trigger] es.filter(p)[k]) by {
            if k < f.len() {
                let m = choose|m: int| 0 <= m < dl.len() && dl[m] == f[k];
                assert(es[m] == dl[m]);
            } else {
                assert(es[es.len() - 1] == es.last());
            }
        }
        if p(es.last()) {
            assert(es.filter(p) == f.push(es.last()));
            assert forall|i: int, j: int| 0 <= i < j < es.filter(p).len() implies (#[trigger] es.filter(p)[i]).id
                != (#[trigger] es.filter(p)[j]).id by {
                if j == f.len() {
                    let m = choose|m: int| 0 <= m < dl.len() && dl[m] == f[i];
                    assert(es[m] == dl[m]);
                    assert(es[m].id != es[es.len() - 1].id);
                } else {
                    assert(f[i].id != f[j].id);
                }
            }
        } else {
            assert(es.filter(p) == f);
        }
    }
}

/// The ids of the entities of `es`, in order.
pub open spec fn ids_of(es: Seq<Entity>) -> Seq<EntityId> {
    es.map_values(|e: Entity| e.id)
}

/// `d` with the entity of id `id` removed.
pub open spec fn without_id(es: Seq<Entity>, id: EntityId) -> Seq<Entity> {
    es.filter(|e: Entity| e.id != id)
}

/// The position of the first layer called `name`, if any.
pub open spec fn layer_named(layers: Seq<LayerModel>, name: Seq<char>) -> Option<int> {
    if exists|i: int| 0 <= i < layers.len() && layers[i].name == name {
        Some(
            choose|i: int|
                0 <= i < layers.len() && layers[i].name == name && forall|j: int|
                    0 <= j < i ==> layers[j].name != name,
        )
    } else {
        None
    }
}

/// An entity can be picked and edited when its layer exists, is shown and is
/// not locked.
pub open spec fn editable(e: Entity, layers: Seq<Layer>) -> bool {
    e.layer < layers.len() && layers[e.layer as int].visible && !layers[e.layer as int].locked
}

impl Document {
    /// Whether the entity's layer is shown; an entity whose layer does not
    /// exist is shown.
    pub fn layer_visible(&self, e: &Entity) -> (r: bool)
        ensures
            r == (e.layer < self.layers@.len() ==> self.layers@[e.layer as int].visible),
    {
        if e.layer < self.layers.len() {
            self.layers[e.layer].visible
        } else {
            true
        }
    }

    /// Whether the entity may be selected or edited.
    pub fn is_editable(&self, e: &Entity) -> (r: bool)
        ensures
            r == editable(*e, self.layers@),
    {
        e.layer < self.layers.len() && self.layers[e.layer].visible && !self.layers[e.layer].locked
    }
}

impl Document {
    /// An empty drawing with the single layer "0", which is current.
    pub fn new() -> (d: Document)
        ensures
            d@.entities == Seq::<Entity>::empty(),
            d@.layers == seq![layer_zero()],
            d@.texts == Seq::<Seq<char>>::empty(),
            d@.current_layer == 0,
            d@.next_id == 1,
            doc_wf(d@),
    {
        let mut layers: Vec<Layer> = Vec::new();
        layers.push(Layer::new(String::from_str("0")));
        let d = Document { entities: Vec::new(), layers, current_layer: 0, next_id: 1, texts: Vec::new() };
        assert(d@.layers =~= seq![layer_zero()]);
        assert(d@.texts =~= Seq::<Seq<char>>::empty());
        assert(d@.entities =~= Seq::<Entity>::empty());
        d
    }

    /// An independent copy of the drawing.
    pub fn copy(&self) -> (d: Document)
        ensures
            d@ == self@,
    {
        let mut entities: Vec<Entity> = Vec::new();
        let mut i: usize = 0;
        while i < self.entities.len()
            invariant
                i <= self.entities.len(),
                entities@ == self.entities@.subrange(0, i as int),
            decreases self.entities.len() - i,
        {
            entities.push(self.entities[i]);
            i = i + 1;
        }
        let mut layers: Vec<Layer> = Vec::new();
        let mut j: usize = 0;
        while j < self.layers.len()
            invariant
                j <= self.layers.len(),
                layers@.len() == j,
                forall|k: int| 0 <= k < j ==> #[trigger] layers@[k]@ == self.layers@[k]@,
            decreases self.layers.len() - j,
        {
            let l = &self.layers[j];
            layers.push(Layer { name: l.name.clone(), color: l.color, visible: l.visible, locked: l.locked });
            j = j + 1;
        }
        let mut texts: Vec<String> = Vec::new();
        let mut t: usize = 0;
        while t < self.texts.len()
            invariant
                t <= self.texts.len(),
                texts@.len() == t,
                forall|k: int| 0 <= k < t ==> #[trigger] texts@[k]@ == self.texts@[k]@,
            decreases self.texts.len() - t,
        {
            texts.push(self.texts[t].clone());
            t = t + 1;
        }
        let d = Document { entities, layers, current_layer: self.current_layer, next_id: self.next_id, texts };
        assert(d@.entities =~= self@.entities);
        assert(d@.layers =~= self@.layers);
        assert(d@.texts =~= self@.texts);
        d
    }

    /// Number of entities.
    pub fn len(&self) -> (r: usize)
        ensures
            r == self@.entities.len(),
    {
        self.entities.len()
    }

    /// Whether an entity of id `id` is in the drawing.
    pub fn contains(&self, id: EntityId) -> (r: bool)
        ensures
            r == ids_of(self@.entities).contains(id),
    {
        let mut i: usize = 0;
        while i < self.entities.len()
            invariant
                i <= self.entities.len(),
                forall|k: int| 0 <= k < i ==> (#[trigger] self.entities@[k]).id != id,
            decreases self.entities.len() - i,
        {
            if self.entities[i].id == id {
                assert(ids_of(self@.entities)[i as int] == id);
                return true;
            }
            i = i + 1;
        }
        assert(!ids_of(self@.entities).contains(id)) by {
            if ids_of(self@.entities).contains(id) {
                let k = choose|k: int| 0 <= k < ids_of(self@.entities).len() && ids_of(self@.entities)[k] == id;
                assert(self.entities@[k].id == id);
            }
        }
        false
    }

    /// Adds an entity of the given kind and extent on the current layer and
    /// returns its new id.
    pub fn add(&mut self, kind: KindTag, bbox: Option<BoundingBox>) -> (id: EntityId)
        requires
            old(self).next_id < u64::MAX,
        ensures
            id.0 == old(self)@.next_id,
            final(self)@ == (DocModel {
                entities: old(self)@.entities.push(
                    Entity { id, layer: old(self)@.current_layer, kind, bbox, text: None },
                ),
                next_id: (old(self)@.next_id + 1) as u64,
                ..old(self)@
            }),
            doc_wf(old(self)@) ==> doc_wf(final(self)@),
    {
        let id = EntityId(self.next_id);
        self.entities.push(Entity { id, layer: self.current_layer, kind, bbox, text: None });
        self.next_id = self.next_id + 1;
        id
    }

    /// Adds a text entity with the given content and extent on the current
    /// layer and returns its new id.
    pub fn add_text(&mut self, content: String, bbox: Option<BoundingBox>) -> (id: EntityId)
        requires
            old(self).next_id < u64::MAX,
        ensures
            id.0 == old(self)@.next_id,
            final(self)@ == (DocModel {
                entities: old(self)@.entities.push(
                    Entity {
                        id,
                        layer: old(self)@.current_layer,
                        kind: KindTag::Text,
                        bbox,
                        text: Some(old(self)@.texts.len() as usize),
                    },
                ),
                next_id: (old(self)@.next_id + 1) as u64,
                texts: old(self)@.texts.push(content@),
                ..old(self)@
            }),
            doc_wf(old(self)@) ==> doc_wf(final(self)@),
    {
        let id = EntityId(self.next_id);
        let k = self.texts.len();
        let ghost before = self.texts@;
        self.texts.push(content);
        assert(self.texts@.map_values(|t: String| t@) =~= before.map_values(|t: String| t@).push(self.texts@[k as int]@));
        self.entities.push(Entity { id, layer: self.current_layer, kind: KindTag::Text, bbox, text: Some(k) });
        self.next_id = self.next_id + 1;
        id
    }

    /// Removes the entity of id `id`, if there is one.
    pub fn remove(&mut self, id: EntityId)
        ensures
            final(self)@ == (DocModel { entities: without_id(old(self)@.entities, id), ..old(self)@ }),
            doc_wf(old(self)@) ==> doc_wf(final(self)@),
    {
        let ghost es = self.entities@;
        let mut kept: Vec<Entity> = Vec::new();
        let mut i: usize = 0;
        while i < self.entities.len()
            invariant
                i <= self.entities.len(),
                es == self.entities@,
                es == old(self)@.entities,
                self@ == old(self)@,
                kept@ == without_id(es.subrange(0, i as int), id),
                doc_wf(old(self)@) ==> forall|k: int|
                    0 <= k < kept@.len() ==> (#[trigger] kept@[k]).id.0 < old(self)@.next_id,
            decreases self.entities.len() - i,
        {
            let e = self.entities[i];
            proof {
                assert(es.subrange(0, i + 1) =~= es.subrange(0, i as int).push(e));
                es.subrange(0, i as int).lemma_filter_push(e, |e: Entity| e.id != id);
            }
            if e.id != id {
                kept.push(e);
            }
            i = i + 1;
        }
        assert(es.subrange(0, es.len() as int) =~= es);
        self.entities = kept;
        proof {
            if doc_wf(old(self)@) {
                lemma_filter_unique(es, |e: Entity| e.id != id);
                assert forall|k: int| 0 <= k < self@.entities.len() implies ((#[trigger] self@.entities[k]).text matches Some(t)
                    ==> t < self@.texts.len()) by {
                    assert(es.contains(self@.entities[k]));
                }
            }
        }
    }

    /// Adds a layer and returns its position.
    pub fn add_layer(&mut self, layer: Layer) -> (i: usize)
        requires
            old(self).layers.len() < usize::MAX,
        ensures
            i == old(self)@.layers.len(),
            final(self)@ == (DocModel { layers: old(self)@.layers.push(layer@), ..old(self)@ }),
            doc_wf(old(self)@) ==> doc_wf(final(self)@),
    {
        let i = self.layers.len();
        let ghost before = self.layers@;
        self.layers.push(layer);
        assert(self.layers@.map_values(|l: Layer| l@) =~= before.map_values(|l: Layer| l@).push(layer@));
        i
    }

    /// Makes the first layer called `name` current; does nothing when there
    /// is none.
    pub fn set_current_layer(&mut self, name: &str)
        ensures
            final(self)@ == (match layer_named(old(self)@.layers, name@) {
                Some(i) => DocModel { current_layer: i as usize, ..old(self)@ },
                None => old(self)@,
            }),
            doc_wf(old(self)@) ==> doc_wf(final(self)@),
    {
        let mut i: usize = 0;
        while i < self.layers.len()
            invariant
                i <= self.layers.len(),
                self@ == old(self)@,
                forall|j: int| 0 <= j < i ==> self@.layers[j].name != name@,
            decreases self.layers.len() - i,
        {
            if crate::words::same_text(self.layers[i].name.as_str(), name) {
                assert(self@.layers[i as int].name == name@);
                proof {
                    let w = choose|w: int|
                        0 <= w < self@.layers.len() && self@.layers[w].name == name@ && forall|j: int|
                            0 <= j < w ==> self@.layers[j].name != name@;
                    assert(0 <= w < self@.layers.len() && self@.layers[w].name == name@ && forall|j: int|
                        0 <= j < w ==> self@.layers[j].name != name@);
                    if w < i {
                    } else if w > i {
                        assert(self@.layers[i as int].name != name@);
                    }
                }
                self.current_layer = i;
                return;
            }
            i = i + 1;
        }
    }

    /// The name of the current layer.
    pub fn current_layer_name(&self) -> (r: &str)
        requires
            self@.current_layer < self@.layers.len(),
        ensures
            r@ == self@.layers[self@.current_layer as int].name,
    {
        self.layers[self.current_layer].name.as_str()
    }
}

/// A layer called `name` at position `i`, with none before it, is the one
/// that `layer_named` finds.
pub proof fn lemma_layer_named_at(layers: Seq<LayerModel>, name: Seq<char>, i: int)
    requires
        0 <= i < layers.len(),
        layers[i].name == name,
        forall|j: int| 0 <= j < i ==> layers[j].name != name,
    ensures
        layer_named(layers, name) == Some(i),
{
    let w = choose|w: int|
        0 <= w < layers.len() && layers[w].name == name && forall|j: int| 0 <= j < w ==> layers[j].name != name;
    assert(0 <= w < layers.len() && layers[w].name == name && forall|j: int| 0 <= j < w ==> layers[j].name != name);
    if w < i {
        assert(layers[w].name != name);
    } else if w > i {
        assert(layers[i].name != name);
    }
}

/// The names of the layers that a fresh drawing gets besides layer "0".
pub open spec fn default_layer_names() -> Seq<Seq<char>> {
    seq!["Dimensions"@, "Centerlines"@, "Construction"@, "Hidden"@]
}

/// Their colours.
pub open spec fn default_layer_colors() -> Seq<Rgb> {
    seq![Rgb { r: 245, g: 185, b: 74 }, Rgb { r: 232, g: 134, b: 108 }, Rgb { r: 169, g: 140, b: 255 }, Rgb { r: 150, g: 160, b: 178 }]
}

/// The layers that seeding adds after layer "0": names and colours as
/// above, each visible and unlocked.
pub open spec fn companion_layers() -> Seq<LayerModel> {
    seq![
        LayerModel { name: "Dimensions"@, color: Rgb { r: 245, g: 185, b: 74 }, visible: true, locked: false },
        LayerModel { name: "Centerlines"@, color: Rgb { r: 232, g: 134, b: 108 }, visible: true, locked: false },
        LayerModel { name: "Construction"@, color: Rgb { r: 169, g: 140, b: 255 }, visible: true, locked: false },
        LayerModel { name: "Hidden"@, color: Rgb { r: 150, g: 160, b: 178 }, visible: true, locked: false },
    ]
}

/// Layer "0" as a new drawing has it: white, visible, unlocked.
pub open spec fn layer_zero() -> LayerModel {
    LayerModel { name: "0"@, color: Rgb { r: 255, g: 255, b: 255 }, visible: true, locked: false }
}

/// Seed a fresh document with the usual CAD layer set (layer "0" already
/// exists as the default drawing layer; the common companions go on top).
pub fn seed_default_layers(doc: &mut Document)
    ensures
        final(doc).entities@ == old(doc).entities@,
        final(doc).current_layer == old(doc).current_layer,
        final(doc).next_id == old(doc).next_id,
        final(doc)@.texts == old(doc)@.texts,
        final(doc)@.layers == old(doc)@.layers + companion_layers(),
        final(doc).layers@.len() == old(doc).layers@.len() + 4,
        forall|i: int| 0 <= i < old(doc).layers@.len() ==> #[trigger] final(doc).layers@[i] == old(doc).layers@[i],
        forall|k: int|
            0 <= k < 4 ==> {
                let l = #[trigger] final(doc).layers@[old(doc).layers@.len() + k];
                &&& l.name@ == default_layer_names()[k]
                &&& l.color == default_layer_colors()[k]
                &&& l.visible
                &&& !l.locked
            },
{
    let ghost n: int = doc.layers@.len() as int;
    doc.layers.push(Layer::new(String::from_str("Dimensions")).with_color(245, 185, 74));
    doc.layers.push(Layer::new(String::from_str("Centerlines")).with_color(232, 134, 108));
    doc.layers.push(Layer::new(String::from_str("Construction")).with_color(169, 140, 255));
    doc.layers.push(Layer::new(String::from_str("Hidden")).with_color(150, 160, 178));
    proof {
        assert(doc.layers@[n + 0].name@ == default_layer_names()[0]);
        assert(doc.layers@[n + 1].name@ == default_layer_names()[1]);
        assert(doc.layers@[n + 2].name@ == default_layer_names()[2]);
        assert(doc.layers@[n + 3].name@ == default_layer_names()[3]);
        assert(doc@.layers =~= old(doc)@.layers + companion_layers());
    }
}

/// The length unit a drawing is measured in.
#[derive(Clone, Copy, Debug, PartialEq, Eq, Structural)]
pub enum Units {
    Millimeters,
    Centimeters,
    Meters,
    Kilometers,
    Inches,
    Feet,
    Unitless,
}

/// The name shown for a drawing unit.
pub open spec fn units_text(u: Units) -> Seq<char> {
    match u {
        Units::Millimeters => "Millimeters (mm)"@,
        Units::Centimeters => "Centimeters (cm)"@,
        Units::Meters => "Meters (m)"@,
        Units::Kilometers => "Kilometers (km)"@,
        Units::Inches => "Inches (in)"@,
        Units::Feet => "Feet (ft)"@,
        Units::Unitless => "Unitless"@,
    }
}

/// Human-readable label for a drawing-units choice.
pub fn units_label(u: Units) -> (r: &'static str)
    ensures
        r@ == units_text(u),
{
    match u {
        Units::Millimeters => "Millimeters (mm)",
        Units::Centimeters => "Centimeters (cm)",
        Units::Meters => "Meters (m)",
        Units::Kilometers => "Kilometers (km)",
        Units::Inches => "Inches (in)",
        Units::Feet => "Feet (ft)",
        Units::Unitless => "Unitless",
    }
}

} // verus!
