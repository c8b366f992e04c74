//! Scenes of a story, the characters of the story, and which scene is on.

use vstd::prelude::*;
use std::collections::HashMap;
use crate::types::{Character, Scene};
use vstd::std_specs::iter::IteratorSpec;

verus! {

broadcast use vstd::std_specs::hash::group_hash_axioms;

/// The scenes, the characters keyed by id, and the current scene.
pub struct SceneManager {
    scenes: Vec<Scene>,
    characters: HashMap<u128, Character>,
    current_scene_index: Option<usize>,
}

/// The mathematical content of a scene manager.
pub struct SceneManagerView {
    pub scenes: Seq<Scene>,
    pub characters: Map<u128, Character>,
    pub current: Option<usize>,
}

impl View for SceneManager {
    type V = SceneManagerView;

    closed spec fn view(&self) -> SceneManagerView {
        SceneManagerView {
            scenes: self.scenes@,
            characters: self.characters@,
            current: self.current_scene_index,
        }
    }
}

/// The characters present under the given ids, in the order of the ids.
pub open spec fn present(ids: Seq<u128>, cs: Map<u128, Character>) -> Seq<Character>
    decreases ids.len(),
{
    if ids.len() == 0 {
        Seq::empty()
    } else if cs.contains_key(ids.last()) {
        present(ids.drop_last(), cs).push(cs[ids.last()])
    } else {
        present(ids.drop_last(), cs)
    }
}

/// The referenced characters of a list of references.
pub open spec fn derefs(s: Seq<&Character>) -> Seq<Character> {
    s.map_values(|r: &Character| *r)
}

impl SceneManager {
    #[verifier::type_invariant]
    closed spec fn current_in_range(&self) -> bool {
        match self.current_scene_index {
            Some(i) => i < self.scenes@.len(),
            None => true,
        }
    }

    /// No scenes, no characters, no current scene.
    pub fn new() -> (m: Self)
        ensures
            m@.scenes.len() == 0,
            m@.characters == Map::<u128, Character>::empty(),
            m@.current is None,
    {
        SceneManager { scenes: Vec::new(), characters: HashMap::new(), current_scene_index: None }
    }

    /// Appends a scene.
    pub fn add_scene(&mut self, scene: Scene)
        ensures
            final(self)@ == (SceneManagerView { scenes: old(self)@.scenes.push(scene), ..old(self)@ }),
    {
        proof {
            use_type_invariant(&*self);
        }
        let mut taken = SceneManager::new();
        std::mem::swap(&mut taken, self);
        proof {
            use_type_invariant(&taken);
        }
        let SceneManager { mut scenes, characters, current_scene_index } = taken;
        scenes.push(scene);
        *self = SceneManager { scenes, characters, current_scene_index };
    }

    /// Adds a character under its id, replacing one with the same id.
    pub fn add_character(&mut self, character: Character)
        ensures
            final(self)@ == (SceneManagerView {
                characters: old(self)@.characters.insert(character.id, character),
                ..old(self)@
            }),
    {
        proof {
            use_type_invariant(&*self);
        }
        let id = character.id;
        let mut taken = SceneManager::new();
        std::mem::swap(&mut taken, self);
        proof {
            use_type_invariant(&taken);
        }
        let SceneManager { scenes, mut characters, current_scene_index } = taken;
        characters.insert(id, character);
        *self = SceneManager { scenes, characters, current_scene_index };
    }

    /// Makes the scene at `index` current, if there is one.
    pub fn set_scene(&mut self, index: usize) -> (r: Option<&Scene>)
        ensures
            index < old(self)@.scenes.len() ==> final(self)@ == (SceneManagerView {
                current: Some(index),
                ..old(self)@
            }) && r == Some(&old(self)@.scenes[index as int]),
            index >= old(self)@.scenes.len() ==> final(self)@ == old(self)@ && r is None,
    {
        proof {
            use_type_invariant(&*self);
        }
        if index < self.scenes.len() {
            self.current_scene_index = Some(index);
            Some(&self.scenes[index])
        } else {
            None
        }
    }

    /// The current scene, if any.
    pub fn current_scene(&self) -> (r: Option<&Scene>)
        ensures
            match self@.current {
                Some(i) => r == Some(&self@.scenes[i as int]),
                None => r is None,
            },
    {
        proof {
            use_type_invariant(self);
        }
        match self.current_scene_index {
            Some(i) => Some(&self.scenes[i]),
            None => None,
        }
    }

    /// The characters of the current scene that are known, in the scene's
    /// order; with no current scene, every character in some order.
    pub fn active_characters(&self) -> (cs: Vec<&Character>)
        ensures
            match self@.current {
                Some(i) => derefs(cs@) == present(self@.scenes[i as int].active_characters@, self@.characters),
                None => derefs(cs@).to_set() == self@.characters.values() && cs@.len()
                    == self@.characters.dom().len(),
            },
    {
        proof {
            use_type_invariant(self);
        }
        match self.current_scene_index {
            Some(i) => {
                let scene = &self.scenes[i];
                let ghost ids = scene.active_characters@;
                let mut out: Vec<&Character> = Vec::new();
                let mut k: usize = 0;
                while k < scene.active_characters.len()
                    invariant
                        k <= ids.len(),
                        ids == scene.active_characters@,
                        derefs(out@) == present(ids.take(k as int), self.characters@),
                    decreases ids.len() - k,
                {
                    proof {
                        assert(ids.take(k + 1).drop_last() =~= ids.take(k as int));
                    }
                    match self.characters.get(&scene.active_characters[k]) {
                        Some(c) => {
                            out.push(c);
                            assert(derefs(out@) =~= present(ids.take(k + 1), self.characters@));
                        },
                        None => {
                            assert(derefs(out@) =~= present(ids.take(k + 1), self.characters@));
                        },
                    }
                    k = k + 1;
                }
                assert(ids.take(ids.len() as int) =~= ids);
                out
            },
            None => self.all_characters(),
        }
    }

    /// The character with the given id, if known.
    pub fn get_character(&self, id: u128) -> (r: Option<&Character>)
        ensures
            match r {
                Some(c) => self@.characters.contains_key(id) && *c == self@.characters[id],
                None => !self@.characters.contains_key(id),
            },
    {
        self.characters.get(&id)
    }

    /// Every character, in some order.
    pub fn all_characters(&self) -> (cs: Vec<&Character>)
        ensures
            derefs(cs@).to_set() == self@.characters.values(),
            cs@.len() == self@.characters.dom().len(),
    {
        let mut out: Vec<&Character> = Vec::new();
        let ghost all = vstd::std_specs::hash::spec_values_iter(&self.characters).remaining();
        proof {
            vstd::std_specs::hash::axiom_spec_values_iter(&self.characters);
        }
        for c in it: self.characters.values()
            invariant
                it.seq() == all,
                out@ == all.take(it.index()),
        {
            out.push(c);
            assert(out@ =~= all.take(it.index() + 1));
        }
        assert(out@ =~= all);
        assert(derefs(out@) =~= all.unref());
        out
    }

    /// Moves to the next scene (the first when none is current).
    pub fn next_scene(&mut self) -> (r: Option<&Scene>)
        ensures
            match old(self)@.current {
                Some(i) => if i + 1 < old(self)@.scenes.len() {
                    final(self)@ == (SceneManagerView { current: Some((i + 1) as usize), ..old(self)@ })
                        && r == Some(&old(self)@.scenes[i + 1])
                } else {
                    final(self)@ == old(self)@ && r is None
                },
                None => if old(self)@.scenes.len() > 0 {
                    final(self)@ == (SceneManagerView { current: Some(0usize), ..old(self)@ })
                        && r == Some(&old(self)@.scenes[0])
                } else {
                    final(self)@ == old(self)@ && r is None
                },
            },
    {
        proof {
            use_type_invariant(&*self);
        }
        match self.current_scene_index {
            Some(i) => {
                let n = self.scenes.len();
                if i + 1 < n {
                    self.current_scene_index = Some(i + 1);
                    Some(&self.scenes[i + 1])
                } else {
                    None
                }
            },
            None => {
                if self.scenes.len() > 0 {
                    self.current_scene_index = Some(0);
                    Some(&self.scenes[0])
                } else {
                    None
                }
            },
        }
    }

    /// All scenes, in order.
    pub fn scenes(&self) -> (s: &[Scene])
        ensures
            s@ == self@.scenes,
    {
        self.scenes.as_slice()
    }

    /// Number of scenes.
    pub fn scene_count(&self) -> (n: usize)
        ensures
            n == self@.scenes.len(),
    {
        self.scenes.len()
    }
}

impl Default for SceneManager {
    fn default() -> (m: Self)
        ensures
            m@.scenes.len() == 0,
            m@.characters == Map::<u128, Character>::empty(),
            m@.current is None,
    {
        SceneManager::new()
    }
}

} // verus!
