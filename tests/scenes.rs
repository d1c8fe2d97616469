use raft_world::scene::{SceneManager, SceneTransition, SceneType, TransitionType};

#[test]
fn scene_changes_follow_the_allowed_moves() {
    let mut sm = SceneManager::new();
    assert_eq!(sm.get_current_scene(), SceneType::MainMenu);
    assert!(!sm.change_scene(SceneType::Inventory));
    assert!(sm.change_scene(SceneType::Playing));
    assert!(sm.change_scene(SceneType::Crafting));
    assert_eq!(sm.get_previous_scene(), Some(SceneType::Playing));
    assert!(sm.go_back());
    assert_eq!(sm.get_current_scene(), SceneType::Playing);
    assert!(sm.go_back());
    assert_eq!(sm.get_current_scene(), SceneType::Crafting);
    assert_eq!(sm.get_current_scene_data().unwrap().name, "Crafting");
    assert!(!sm.change_scene(SceneType::Paused));
    assert_eq!(sm.get_active_transitions().len(), 4);
    assert!(sm.is_transitioning());
}

#[test]
fn transitions_fade_and_end() {
    let mut sm = SceneManager::new();
    sm.change_scene(SceneType::Playing);
    sm.update_transitions(250);
    assert_eq!(sm.get_active_transitions()[0].get_progress(), 500);
    assert_eq!(sm.get_active_transitions()[0].get_alpha(), 1000);
    sm.update_transitions(249);
    assert_eq!(sm.get_active_transitions()[0].get_alpha(), 4);
    sm.update_transitions(1);
    assert!(!sm.is_transitioning());
    let mut t = SceneTransition::new(SceneType::Playing, SceneType::Paused);
    t.set_duration(0);
    assert!(!t.update(0));
    assert_eq!(t.transition_type, TransitionType::Fade);
}
