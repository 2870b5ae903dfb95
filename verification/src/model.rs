//! Spawnable entity templates and their registry.
//!
//! A `Model` is an immutable template: a sprite sheet with its grid
//! layout, an animation component, and the collider children to
//! attach.  Spawning clones the template, so live entities share no
//! mutable state.  `Models` is the name-keyed registry built once
//! from the loaded property documents.

use crate::animation::AnimatedSprite;
use crate::animation::same_clips;
use crate::character::CharacterProperties;
use crate::character::CharacterProperty;
use crate::character::model_matches_character;
use crate::geometry::Vec2;
use crate::physics::ColliderChild;
use vstd::prelude::*;

verus! {

/// The grid layout of a sprite sheet: how the atlas is cut into
/// frames.
#[derive(Clone, Copy, Debug, PartialEq, Eq, Structural)]
pub struct GridLayout {
    /// Size of one tile, in thousandths of a unit.
    pub tile_size: Vec2,
    /// Number of tile columns.
    pub columns: usize,
    /// Number of tile rows.
    pub rows: usize,
    /// Padding between tiles, in thousandths of a unit.
    pub padding: Vec2,
    /// Offset of the grid within the texture, in thousandths of a
    /// unit.
    pub offset: Vec2,
}

/// The renderable part of a model: which texture to sample, how it
/// is cut, and where the sprite sits relative to the entity.
#[derive(Debug)]
pub struct SpriteSheet {
    /// Path of the texture asset.
    pub file_path: String,
    /// Grid layout of the sheet.
    pub layout: GridLayout,
    /// Index of the frame currently shown.
    pub atlas_index: usize,
    /// Whether the sprite is mirrored horizontally.
    pub flip_x: bool,
    /// Offset of the sprite from the entity origin, in thousandths
    /// of a unit.
    pub translation: Vec2,
}

impl SpriteSheet {
    /// An independent copy of the sprite sheet description.
    pub fn duplicate(&self) -> (r: Self)
        ensures
            r.file_path@ == self.file_path@,
            r.layout == self.layout,
            r.atlas_index == self.atlas_index,
            r.flip_x == self.flip_x,
            r.translation == self.translation,
    {
        SpriteSheet {
            file_path: self.file_path.clone(),
            layout: self.layout,
            atlas_index: self.atlas_index,
            flip_x: self.flip_x,
            translation: self.translation,
        }
    }
}

/// An immutable template for a spawnable game object: sprite sheet,
/// animation component and collider children.
#[derive(Debug)]
pub struct Model {
    /// The renderable sprite sheet.
    pub spritesheet: SpriteSheet,
    /// The animation component cloned into each spawned entity.
    pub animation: AnimatedSprite,
    /// The collider children attached to each spawned entity.
    pub colliders: Vec<ColliderChild>,
}

impl Model {
    /// Structural invariant: the template's animation component is
    /// well formed.
    pub open spec fn wf(self) -> bool {
        self.animation.wf()
    }

    /// Two models equal in every observable respect.
    pub open spec fn matches(self, other: Model) -> bool {
        &&& self.spritesheet.file_path@ == other.spritesheet.file_path@
        &&& self.spritesheet.layout == other.spritesheet.layout
        &&& self.spritesheet.atlas_index == other.spritesheet.atlas_index
        &&& self.spritesheet.flip_x == other.spritesheet.flip_x
        &&& self.spritesheet.translation == other.spritesheet.translation
        &&& same_clips(self.animation.animation_data@, other.animation.animation_data@)
        &&& self.animation.current_animation@ == other.animation.current_animation@
        &&& self.colliders@ == other.colliders@
    }

    /// An independent copy of the template, so that each spawned
    /// entity owns its animation state alone.
    pub fn duplicate(&self) -> (r: Self)
        requires
            self.wf(),
        ensures
            r.wf(),
            r.matches(*self),
    {
        let colliders = self.colliders.clone();
        proof {
            assert(colliders@ =~= self.colliders@);
        }
        Model {
            spritesheet: self.spritesheet.duplicate(),
            animation: self.animation.duplicate(),
            colliders,
        }
    }
}

/// One named template in the registry.
#[derive(Debug)]
pub struct ModelEntry {
    /// The name the template is registered under.
    pub name: String,
    /// The template.
    pub model: Model,
}

/// Whether a registry entry comes from some character of the
/// document: same name, and a model built from that character.
pub open spec fn entry_from_document(e: ModelEntry, chars: Seq<CharacterProperty>) -> bool {
    exists|k: int|
        0 <= k < chars.len() && e.name@ == (#[trigger] chars[k]).name@ && model_matches_character(
            e.model,
            chars[k],
        )
}

/// The registry of spawnable templates, keyed by name and built once
/// at load time.
#[derive(Debug)]
pub struct Models {
    models: Vec<ModelEntry>,
}

impl Models {
    /// The registered entries, abstractly.
    pub closed spec fn entries(self) -> Seq<ModelEntry> {
        self.models@
    }

    /// Whether a template of the given name is registered.
    pub open spec fn has_model(self, name: Seq<char>) -> bool {
        exists|i: int|
            0 <= i < self.entries().len() && (#[trigger] self.entries()[i]).name@ == name
    }

    /// Structural invariant: names are unique and every template is
    /// well formed.
    pub open spec fn wf(self) -> bool {
        &&& forall|i: int, j: int|
            0 <= i < j < self.entries().len() ==> (#[trigger] self.entries()[i]).name@
                != (#[trigger] self.entries()[j]).name@
        &&& forall|i: int| 0 <= i < self.entries().len() ==> (#[trigger] self.entries()[i]).model.wf()
    }

    /// An empty registry.
    pub fn new() -> (r: Models)
        ensures
            r.wf(),
            r.entries().len() == 0,
    {
        Models { models: Vec::new() }
    }

    /// How many templates are registered.
    pub fn len(&self) -> (n: usize)
        ensures
            n == self.entries().len(),
    {
        self.models.len()
    }

    /// Registers a template under `name`, overwriting any template
    /// of that name; the last write wins.
    pub fn insert(&mut self, name: String, model: Model)
        requires
            old(self).wf(),
            model.wf(),
        ensures
            final(self).wf(),
            final(self).has_model(name@),
            forall|i: int|
                0 <= i < final(self).entries().len()
                    && (#[trigger] final(self).entries()[i]).name@ == name@
                    ==> final(self).entries()[i].model == model,
            forall|j: int|
                0 <= j < final(self).entries().len()
                    && (#[trigger] final(self).entries()[j]).name@ != name@
                    ==> exists|i: int|
                        0 <= i < old(self).entries().len()
                            && #[trigger] old(self).entries()[i] == final(self).entries()[j],
            forall|i: int|
                0 <= i < old(self).entries().len()
                    && (#[trigger] old(self).entries()[i]).name@ != name@
                    ==> exists|j: int|
                        0 <= j < final(self).entries().len()
                            && #[trigger] final(self).entries()[j] == old(self).entries()[i],
    {
        let ghost key = name@;
        let entry = ModelEntry { name, model };
        let n = self.models.len();
        let mut i: usize = 0;
        while i < n
            invariant
                old(self).wf(),
                *self == *old(self),
                n == self.models@.len(),
                0 <= i <= n,
                key == name@,
                entry.name@ == key,
                entry.model == model,
                model.wf(),
                forall|k: int| 0 <= k < i ==> (#[trigger] self.models@[k]).name@ != key,
            decreases n - i,
        {
            if self.models[i].name == entry.name {
                proof {
                    assert(self.models@[i as int].name@ == key);
                }
                self.models.set(i, entry);
                proof {
                    let ghost fin = self.entries();
                    let ghost orig = old(self).entries();
                    assert(fin == self.models@);
                    assert(orig == old(self).models@);
                    assert(fin[i as int].name@ == key);
                    assert(orig[i as int].name@ == key);
                    assert forall|a: int, b: int| 0 <= a < b < fin.len() implies fin[a].name@
                        != fin[b].name@ by {
                        if a == i as int {
                            assert(fin[b] == orig[b]);
                            assert(orig[b].name@ != key);
                        } else if b == i as int {
                            assert(fin[a] == orig[a]);
                            assert(orig[a].name@ != key);
                        } else {
                            assert(fin[a] == orig[a]);
                            assert(fin[b] == orig[b]);
                        }
                    }
                    assert forall|a: int| 0 <= a < fin.len() implies fin[a].model.wf() by {
                        if a != i as int {
                            assert(fin[a] == orig[a]);
                        }
                    }
                    assert forall|k: int|
                        0 <= k < orig.len() && (#[trigger] orig[k]).name@ != key implies exists|
                        j: int,
                    |
                        0 <= j < fin.len() && #[trigger] fin[j] == orig[k] by {
                        assert(k != i as int);
                        assert(fin[k] == orig[k]);
                    }
                    assert forall|j: int|
                        0 <= j < fin.len() && (#[trigger] fin[j]).name@ != key implies exists|
                        k: int,
                    |
                        0 <= k < orig.len() && #[trigger] orig[k] == fin[j] by {
                        assert(j != i as int);
                        assert(orig[j] == fin[j]);
                    }
                }
                return ;
            }
            i += 1;
        }
        self.models.push(entry);
        proof {
            let ghost fin = self.entries();
            let ghost orig = old(self).entries();
            assert(fin == self.models@);
            assert(orig == old(self).models@);
            assert(fin[orig.len() as int].name@ == key);
            assert forall|a: int, b: int| 0 <= a < b < fin.len() implies fin[a].name@
                != fin[b].name@ by {
                if b == orig.len() as int {
                    assert(fin[a] == orig[a]);
                    assert(orig[a].name@ != key);
                } else {
                    assert(fin[a] == orig[a]);
                    assert(fin[b] == orig[b]);
                }
            }
            assert forall|a: int| 0 <= a < fin.len() implies fin[a].model.wf() by {
                if a != orig.len() as int {
                    assert(fin[a] == orig[a]);
                }
            }
            assert forall|k: int|
                0 <= k < orig.len() && (#[trigger] orig[k]).name@ != key implies exists|j: int|
                0 <= j < fin.len() && #[trigger] fin[j] == orig[k] by {
                assert(fin[k] == orig[k]);
            }
            assert forall|j: int|
                0 <= j < fin.len() && (#[trigger] fin[j]).name@ != key implies exists|k: int|
                0 <= k < orig.len() && #[trigger] orig[k] == fin[j] by {
                assert(j != orig.len() as int);
                assert(orig[j] == fin[j]);
            }
        }
    }

    /// Looks a template up by name.
    pub fn get(&self, name: &str) -> (r: Option<&Model>)
        ensures
            r.is_some() == self.has_model(name@),
            match r {
                Some(m) => exists|i: int|
                    0 <= i < self.entries().len() && (#[trigger] self.entries()[i]).name@ == name@
                        && *m == self.entries()[i].model,
                None => !self.has_model(name@),
            },
    {
        let key = name.to_owned();
        let n = self.models.len();
        let mut i: usize = 0;
        while i < n
            invariant
                n == self.models@.len(),
                0 <= i <= n,
                key@ == name@,
                forall|k: int| 0 <= k < i ==> (#[trigger] self.models@[k]).name@ != name@,
            decreases n - i,
        {
            if self.models[i].name == key {
                proof {
                    assert(self.entries()[i as int].name@ == name@);
                }
                return Some(&self.models[i].model);
            }
            i += 1;
        }
        None
    }


    /// Builds the registry from a loaded property document: one
    /// template per character definition, keyed by the character's
    /// name; on duplicate names the last definition wins.
    pub fn from_properties(props: &CharacterProperties) -> (r: Models)
        requires
            forall|k: int|
                0 <= k < props.characters@.len() ==> (#[trigger] props.characters@[k]).wf(),
        ensures
            r.wf(),
            forall|k: int|
                0 <= k < props.characters@.len() ==> r.has_model(
                    (#[trigger] props.characters@[k]).name@,
                ),
            forall|j: int|
                0 <= j < r.entries().len() ==> #[trigger] entry_from_document(
                    r.entries()[j],
                    props.characters@,
                ),
    {
        let mut models = Models::new();
        let n = props.characters.len();
        let mut i: usize = 0;
        while i < n
            invariant
                forall|k: int|
                    0 <= k < props.characters@.len() ==> (#[trigger] props.characters@[k]).wf(),
                n == props.characters@.len(),
                0 <= i <= n,
                models.wf(),
                forall|k: int|
                    0 <= k < i ==> models.has_model((#[trigger] props.characters@[k]).name@),
                forall|j: int|
                    0 <= j < models.entries().len() ==> #[trigger] entry_from_document(
                        models.entries()[j],
                        props.characters@,
                    ),
            decreases n - i,
        {
            let ch = &props.characters[i];
            let m = ch.get_model();
            let ghost prev = models.entries();
            models.insert(ch.name.clone(), m);
            proof {
                let ghost fin = models.entries();
                let ghost name_i = props.characters@[i as int].name@;
                assert forall|k: int| 0 <= k < i + 1 implies models.has_model(
                    (#[trigger] props.characters@[k]).name@,
                ) by {
                    let name_k = props.characters@[k].name@;
                    if k < i && name_k != name_i {
                        let t = choose|t: int|
                            0 <= t < prev.len() && (#[trigger] prev[t]).name@ == name_k;
                        assert(prev[t].name@ != name_i);
                        let j0 = choose|j0: int|
                            0 <= j0 < fin.len() && (#[trigger] fin[j0]) == prev[t];
                        assert(fin[j0].name@ == name_k);
                    }
                }
                assert forall|j: int| 0 <= j < fin.len() implies #[trigger] entry_from_document(
                    fin[j],
                    props.characters@,
                ) by {
                    if fin[j].name@ == name_i {
                        assert(fin[j].model == m);
                        assert(model_matches_character(fin[j].model, props.characters@[i as int]));
                        assert(props.characters@[i as int].name@ == name_i);
                    } else {
                        let t = choose|t: int|
                            0 <= t < prev.len() && (#[trigger] prev[t]) == fin[j];
                        assert(prev[t] == fin[j]);
                        assert(entry_from_document(prev[t], props.characters@));
                    }
                }
            }
            i += 1;
        }
        models
    }

    /// The entry at a position, for enumerating or picking among the
    /// registered templates.
    pub fn entry_at(&self, i: usize) -> (e: &ModelEntry)
        requires
            i < self.entries().len(),
        ensures
            *e == self.entries()[i as int],
    {
        &self.models[i]
    }
}

} // verus!
