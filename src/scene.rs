use vstd::prelude::*;

verus! {

/// Which overlay the player sees.
#[derive(Clone, Copy, Debug, PartialEq, Eq, Structural)]
pub enum UiMode {
    Playing,
    Inventory,
    Crafting,
    Paused,
}

/// The screens of the game.
#[derive(Clone, Copy, Debug, PartialEq, Eq, Structural, Hash, PartialOrd, Ord)]
pub enum SceneType {
    MainMenu,
    Playing,
    Inventory,
    Crafting,
    Paused,
}

/// Names of the entities and interface elements that belong to a scene.
pub struct SceneData {
    pub name: String,
    pub is_initialized: bool,
    pub entities: Vec<String>,
    pub ui_elements: Vec<String>,
}

/// The texts of `v`.
pub open spec fn texts(v: Seq<String>) -> Seq<Seq<char>> {
    v.map_values(|s: String| s@)
}

/// Whether `v` holds the text `t`.
pub fn holds_text(v: &Vec<String>, t: &String) -> (r: bool)
    ensures
        r == texts(v@).contains(t@),
{
    let mut i: usize = 0;
    while i < v.len()
        invariant
            i <= v@.len(),
            forall|j: int| 0 <= j < i ==> v@[j]@ != t@,
        decreases v@.len() - i,
    {
        if v[i] == *t {
            proof {
                assert(texts(v@)[i as int] == t@);
            }
            return true;
        }
        i += 1;
    }
    proof {
        if texts(v@).contains(t@) {
            let j = choose|j: int| 0 <= j < texts(v@).len() && texts(v@)[j] == t@;
            assert(v@[j]@ == t@);
        }
    }
    false
}

/// Appends `t` to `v` unless `v` already holds it.
fn add_text(v: &mut Vec<String>, t: &str)
    ensures
        texts(old(v)@).contains(t@) ==> texts(final(v)@) == texts(old(v)@),
        !texts(old(v)@).contains(t@) ==> texts(final(v)@) == texts(old(v)@).push(t@),
{
    let s = t.to_owned();
    if !holds_text(v, &s) {
        v.push(s);
        proof {
            assert(texts(v@) =~= texts(old(v)@).push(t@));
        }
    }
}

/// Keeps the texts of `v` other than `t`, in their order.
fn drop_text(v: &mut Vec<String>, t: &str)
    ensures
        forall|x: Seq<char>| #[trigger] texts(final(v)@).contains(x) <==> texts(old(v)@).contains(x) && x != t@,
{
    let s = t.to_owned();
    let mut kept: Vec<String> = Vec::new();
    let mut i: usize = 0;
    while i < v.len()
        invariant
            i <= v@.len(),
            s@ == t@,
            forall|x: Seq<char>| #[trigger] texts(kept@).contains(x) <==> texts(v@.take(i as int)).contains(x) && x != t@,
        decreases v@.len() - i,
    {
        let ghost before = texts(kept@);
        let keep = !(v[i] == s);
        if keep {
            kept.push(v[i].clone());
        }
        proof {
            let next = texts(v@.take(i + 1));
            let prev = texts(v@.take(i as int));
            assert(next =~= prev.push(v@[i as int]@));
            if keep {
                assert(texts(kept@) =~= before.push(v@[i as int]@));
            } else {
                assert(texts(kept@) =~= before);
            }
            assert forall|x: Seq<char>| #[trigger] texts(kept@).contains(x) <==> next.contains(x) && x != t@ by {
                if texts(kept@).contains(x) {
                    let a = choose|a: int| 0 <= a < texts(kept@).len() && texts(kept@)[a] == x;
                    if a < before.len() {
                        assert(before[a] == x);
                        assert(before.contains(x));
                        let b = choose|b: int| 0 <= b < prev.len() && prev[b] == x;
                        assert(next[b] == x);
                    } else {
                        assert(next[i as int] == x);
                    }
                }
                if next.contains(x) && x != t@ {
                    let b = choose|b: int| 0 <= b < next.len() && next[b] == x;
                    if b < i {
                        assert(prev[b] == x);
                        assert(before.contains(x));
                        let a = choose|a: int| 0 <= a < before.len() && before[a] == x;
                        assert(texts(kept@)[a] == x);
                    } else {
                        assert(texts(kept@)[texts(kept@).len() - 1] == x);
                    }
                }
            }
        }
        i += 1;
    }
    proof {
        assert(v@.take(i as int) =~= v@);
    }
    *v = kept;
}

impl SceneData {
    /// An empty, uninitialised scene called `name`.
    pub fn new(name: &str) -> (r: SceneData)
        ensures
            r.name@ == name@,
            !r.is_initialized,
            r.entities@ == Seq::<String>::empty(),
            r.ui_elements@ == Seq::<String>::empty(),
    {
        SceneData { name: name.to_owned(), is_initialized: false, entities: Vec::new(), ui_elements: Vec::new() }
    }

    pub fn initialize(&mut self)
        ensures
            final(self).is_initialized,
            final(self).name == old(self).name,
            final(self).entities == old(self).entities,
            final(self).ui_elements == old(self).ui_elements,
    {
        self.is_initialized = true;
    }

    /// Adds the entity name `entity_id`, unless the scene has it already.
    pub fn add_entity(&mut self, entity_id: &str)
        ensures
            final(self).name == old(self).name,
            texts(old(self).entities@).contains(entity_id@) ==> texts(final(self).entities@) == texts(old(self).entities@),
            !texts(old(self).entities@).contains(entity_id@) ==> texts(final(self).entities@) == texts(old(self).entities@).push(entity_id@),
            final(self).ui_elements == old(self).ui_elements,
            final(self).is_initialized == old(self).is_initialized,
    {
        add_text(&mut self.entities, entity_id);
    }

    /// Removes every occurrence of the entity name `entity_id`.
    pub fn remove_entity(&mut self, entity_id: &str)
        ensures
            final(self).name == old(self).name,
            forall|x: Seq<char>| #[trigger] texts(final(self).entities@).contains(x) <==> texts(old(self).entities@).contains(x) && x != entity_id@,
            final(self).ui_elements == old(self).ui_elements,
            final(self).is_initialized == old(self).is_initialized,
    {
        drop_text(&mut self.entities, entity_id);
    }

    /// Adds the interface element name `ui_id`, unless the scene has it already.
    pub fn add_ui_element(&mut self, ui_id: &str)
        ensures
            final(self).name == old(self).name,
            texts(old(self).ui_elements@).contains(ui_id@) ==> texts(final(self).ui_elements@) == texts(old(self).ui_elements@),
            !texts(old(self).ui_elements@).contains(ui_id@) ==> texts(final(self).ui_elements@) == texts(old(self).ui_elements@).push(ui_id@),
            final(self).entities == old(self).entities,
            final(self).is_initialized == old(self).is_initialized,
    {
        add_text(&mut self.ui_elements, ui_id);
    }

    /// Removes every occurrence of the interface element name `ui_id`.
    pub fn remove_ui_element(&mut self, ui_id: &str)
        ensures
            final(self).name == old(self).name,
            forall|x: Seq<char>| #[trigger] texts(final(self).ui_elements@).contains(x) <==> texts(old(self).ui_elements@).contains(x) && x != ui_id@,
            final(self).entities == old(self).entities,
            final(self).is_initialized == old(self).is_initialized,
    {
        drop_text(&mut self.ui_elements, ui_id);
    }
}

/// Position of a scene in per-scene tables.
pub open spec fn scene_index(s: SceneType) -> int {
    match s {
        SceneType::MainMenu => 0,
        SceneType::Playing => 1,
        SceneType::Inventory => 2,
        SceneType::Crafting => 3,
        SceneType::Paused => 4,
    }
}

fn scene_slot(s: SceneType) -> (r: usize)
    ensures
        r == scene_index(s),
{
    match s {
        SceneType::MainMenu => 0,
        SceneType::Playing => 1,
        SceneType::Inventory => 2,
        SceneType::Crafting => 3,
        SceneType::Paused => 4,
    }
}

/// The scene changes the game allows: from the menu into play, from play to
/// the inventory, crafting or the pause screen, and from those back to play.
pub open spec fn allowed(from: SceneType, to: SceneType) -> bool {
    match (from, to) {
        (SceneType::MainMenu, SceneType::Playing) => true,
        (SceneType::Playing, SceneType::Inventory) => true,
        (SceneType::Playing, SceneType::Crafting) => true,
        (SceneType::Playing, SceneType::Paused) => true,
        (SceneType::Inventory, SceneType::Playing) => true,
        (SceneType::Crafting, SceneType::Playing) => true,
        (SceneType::Paused, SceneType::Playing) => true,
        _ => false,
    }
}

#[derive(Clone, Copy, Debug, PartialEq, Eq, Structural)]
pub enum TransitionType {
    Fade,
    Slide,
    Zoom,
    Dissolve,
}

/// A visual change from one scene to another; `progress` runs from 0 to
/// 1000 (thousandths) over `duration` milliseconds.
#[derive(Clone, Copy, Debug, PartialEq, Eq, Structural)]
pub struct SceneTransition {
    pub from_scene: SceneType,
    pub to_scene: SceneType,
    pub progress: u32,
    pub duration: u32,
    pub transition_type: TransitionType,
}

/// Progress after `dt` milliseconds more (stopping at `u32::MAX`); a
/// transition of no duration is over at once.
pub open spec fn progress_after(t: SceneTransition, dt: u32) -> u32 {
    let step: int = if t.duration == 0 { 1000 } else { (dt * 1000) / t.duration as int };
    if t.progress + step > u32::MAX {
        u32::MAX
    } else {
        (t.progress + step) as u32
    }
}

impl SceneTransition {
    /// A fade of half a second.
    pub fn new(from_scene: SceneType, to_scene: SceneType) -> (r: SceneTransition)
        ensures
            r == (SceneTransition { from_scene, to_scene, progress: 0, duration: 500, transition_type: TransitionType::Fade }),
    {
        SceneTransition { from_scene, to_scene, progress: 0, duration: 500, transition_type: TransitionType::Fade }
    }

    /// Advances by `delta_time` milliseconds; returns whether it is still running.
    pub fn update(&mut self, delta_time: u32) -> (running: bool)
        ensures
            *final(self) == (SceneTransition { progress: progress_after(*old(self), delta_time), ..*old(self) }),
            running == (final(self).progress < 1000),
    {
        let step: u64 = if self.duration == 0 { 1000 } else { delta_time as u64 * 1000 / self.duration as u64 };
        let total = self.progress as u64 + step;
        self.progress = if total > u32::MAX as u64 { u32::MAX } else { total as u32 };
        self.progress < 1000
    }

    /// Progress in thousandths, at most 1000.
    pub fn get_progress(&self) -> (r: u32)
        ensures
            r == if self.progress <= 1000 { self.progress } else { 1000 },
    {
        if self.progress <= 1000 { self.progress } else { 1000 }
    }

    /// Opacity of the overlay in thousandths: a fade rises to full at the
    /// midpoint and falls back; other kinds follow the progress.
    pub fn get_alpha(&self) -> (r: i64)
        ensures
            r == match self.transition_type {
                TransitionType::Fade => if self.progress < 500 { self.progress * 2 } else { 2000 - self.progress * 2 },
                _ => self.progress as int,
            },
    {
        match self.transition_type {
            TransitionType::Fade => if self.progress < 500 {
                self.progress as i64 * 2
            } else {
                2000 - self.progress as i64 * 2
            },
            _ => self.progress as i64,
        }
    }

    pub fn set_duration(&mut self, duration: u32)
        ensures
            *final(self) == (SceneTransition { duration, ..*old(self) }),
    {
        self.duration = duration;
    }
}

/// The transitions of `ts` still running after `dt` milliseconds more, advanced, in order.
pub open spec fn running_after(ts: Seq<SceneTransition>, dt: u32) -> Seq<SceneTransition>
    decreases ts.len(),
{
    if ts.len() == 0 {
        Seq::empty()
    } else {
        let rest = running_after(ts.drop_last(), dt);
        let t = SceneTransition { progress: progress_after(ts.last(), dt), ..ts.last() };
        if t.progress < 1000 {
            rest.push(t)
        } else {
            rest
        }
    }
}

/// The current and previous scene, running transitions, and each scene's data.
pub struct SceneManager {
    current_scene: SceneType,
    previous_scene: Option<SceneType>,
    scene_transitions: Vec<SceneTransition>,
    scene_data: Vec<SceneData>,
}

impl SceneManager {
    pub closed spec fn current(&self) -> SceneType {
        self.current_scene
    }

    pub closed spec fn previous(&self) -> Option<SceneType> {
        self.previous_scene
    }

    pub closed spec fn transitions(&self) -> Seq<SceneTransition> {
        self.scene_transitions@
    }

    pub closed spec fn data(&self) -> Seq<SceneData> {
        self.scene_data@
    }

    pub open spec fn wf(&self) -> bool {
        self.data().len() == 5
    }

    /// At the main menu, with an empty scene for each screen.
    pub fn new() -> (r: SceneManager)
        ensures
            r.wf(),
            r.current() == SceneType::MainMenu,
            r.previous().is_none(),
            r.transitions() == Seq::<SceneTransition>::empty(),
            r.data()[0].name@ == "Main Menu"@,
            r.data()[1].name@ == "Playing"@,
    {
        let mut data: Vec<SceneData> = Vec::new();
        data.push(SceneData::new("Main Menu"));
        data.push(SceneData::new("Playing"));
        data.push(SceneData::new("Inventory"));
        data.push(SceneData::new("Crafting"));
        data.push(SceneData::new("Paused"));
        SceneManager { current_scene: SceneType::MainMenu, previous_scene: None, scene_transitions: Vec::new(), scene_data: data }
    }

    /// Whether the game allows going from the current scene to `scene`.
    pub fn can_transition_to(&self, scene: &SceneType) -> (r: bool)
        ensures
            r == allowed(self.current(), *scene),
    {
        match (self.current_scene, *scene) {
            (SceneType::MainMenu, SceneType::Playing) => true,
            (SceneType::Playing, SceneType::Inventory) => true,
            (SceneType::Playing, SceneType::Crafting) => true,
            (SceneType::Playing, SceneType::Paused) => true,
            (SceneType::Inventory, SceneType::Playing) => true,
            (SceneType::Crafting, SceneType::Playing) => true,
            (SceneType::Paused, SceneType::Playing) => true,
            _ => false,
        }
    }

    /// Goes to `new_scene` if the game allows it, starting a fade; returns
    /// whether it did.
    pub fn change_scene(&mut self, new_scene: SceneType) -> (r: bool)
        ensures
            r == allowed(old(self).current(), new_scene),
            r ==> final(self).current() == new_scene && final(self).previous() == Some(old(self).current())
                && final(self).transitions() == old(self).transitions().push(
                SceneTransition {
                    from_scene: old(self).current(),
                    to_scene: new_scene,
                    progress: 0,
                    duration: 500,
                    transition_type: TransitionType::Fade,
                },
            ),
            !r ==> final(self).current() == old(self).current() && final(self).previous() == old(self).previous()
                && final(self).transitions() == old(self).transitions(),
            final(self).data() == old(self).data(),
    {
        if self.can_transition_to(&new_scene) {
            let from = self.current_scene;
            self.previous_scene = Some(from);
            self.current_scene = new_scene;
            self.scene_transitions.push(SceneTransition::new(from, new_scene));
            true
        } else {
            false
        }
    }

    pub fn get_current_scene(&self) -> (r: SceneType)
        ensures
            r == self.current(),
    {
        self.current_scene
    }

    pub fn get_previous_scene(&self) -> (r: Option<SceneType>)
        ensures
            r == self.previous(),
    {
        self.previous_scene
    }

    /// Goes back to the previous scene, if there is one and the game allows it.
    pub fn go_back(&mut self) -> (r: bool)
        ensures
            r == (old(self).previous().is_some() && allowed(old(self).current(), old(self).previous().unwrap())),
            r ==> final(self).current() == old(self).previous().unwrap() && final(self).previous() == Some(old(self).current()),
            !r ==> final(self).current() == old(self).current() && final(self).previous() == old(self).previous(),
            final(self).data() == old(self).data(),
    {
        match self.previous_scene {
            Some(previous) => self.change_scene(previous),
            None => false,
        }
    }

    /// Advances every transition by `delta_time` milliseconds and drops those that are over.
    pub fn update_transitions(&mut self, delta_time: u32)
        ensures
            final(self).transitions() == running_after(old(self).transitions(), delta_time),
            final(self).current() == old(self).current(),
            final(self).previous() == old(self).previous(),
            final(self).data() == old(self).data(),
    {
        let mut kept: Vec<SceneTransition> = Vec::new();
        let mut i: usize = 0;
        while i < self.scene_transitions.len()
            invariant
                i <= self.scene_transitions@.len(),
                self.scene_transitions@ == old(self).scene_transitions@,
                kept@ == running_after(self.scene_transitions@.take(i as int), delta_time),
            decreases self.scene_transitions@.len() - i,
        {
            let mut t = self.scene_transitions[i];
            proof {
                assert(self.scene_transitions@.take(i + 1).drop_last() =~= self.scene_transitions@.take(i as int));
            }
            if t.update(delta_time) {
                kept.push(t);
            }
            i += 1;
        }
        proof {
            assert(self.scene_transitions@.take(i as int) =~= self.scene_transitions@);
        }
        self.scene_transitions = kept;
    }

    /// The data of `scene`.
    pub fn get_scene_data(&self, scene: &SceneType) -> (r: Option<&SceneData>)
        requires
            self.wf(),
        ensures
            r == Some(&self.data()[scene_index(*scene)]),
    {
        Some(&self.scene_data[scene_slot(*scene)])
    }

    pub fn get_current_scene_data(&self) -> (r: Option<&SceneData>)
        requires
            self.wf(),
        ensures
            r == Some(&self.data()[scene_index(self.current())]),
    {
        Some(&self.scene_data[scene_slot(self.current_scene)])
    }

    pub fn set_scene_data(&mut self, scene: SceneType, data: SceneData)
        requires
            old(self).wf(),
        ensures
            final(self).wf(),
            final(self).data() == old(self).data().update(scene_index(scene), data),
            final(self).current() == old(self).current(),
            final(self).previous() == old(self).previous(),
            final(self).transitions() == old(self).transitions(),
    {
        self.scene_data.set(scene_slot(scene), data);
    }

    pub fn is_transitioning(&self) -> (r: bool)
        ensures
            r == (self.transitions().len() > 0),
    {
        self.scene_transitions.len() > 0
    }

    pub fn get_active_transitions(&self) -> (r: &Vec<SceneTransition>)
        ensures
            r@ == self.transitions(),
    {
        &self.scene_transitions
    }
}

} // verus!
