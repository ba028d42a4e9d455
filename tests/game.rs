use engine3d::assets::{Assets, ModelRef};
use engine3d::game::{GameState, ItemInventory, Mode, PlayMode, Rule, RuleKeys, SerDeGameState};

fn none() -> RuleKeys {
    RuleKeys { key_l: false, key_space: false, key_q: false, key_t: false, key_s: false, digit: 0 }
}

#[test]
fn title_starts_play() {
    let mut k = none();
    assert_eq!(Rule::Title.step(&k).next, Rule::Title);
    k.key_space = true;
    let s = Rule::Title.step(&k);
    assert_eq!(s.next, Rule::Play(1));
    assert!(!s.load);
    let mut k = none();
    k.key_l = true;
    let s = Rule::Title.step(&k);
    assert_eq!(s.next, Rule::Play(1));
    assert!(s.load);
}

#[test]
fn play_selects_slots_saves_and_ends() {
    let mut k = none();
    k.digit = 4;
    assert_eq!(Rule::Play(1).step(&k).next, Rule::Play(4));
    let mut k = none();
    k.digit = 9;
    assert_eq!(Rule::Play(2).step(&k).next, Rule::Play(2));
    let mut k = none();
    k.key_q = true;
    k.key_t = true;
    let s = Rule::Play(3).step(&k);
    assert_eq!(s.next, Rule::End);
    assert!(s.save);
}

#[test]
fn end_screen_saves_or_quits() {
    let mut k = none();
    k.key_s = true;
    let s = Rule::End.step(&k);
    assert_eq!(s.next, Rule::End);
    assert!(s.save && !s.quit);
    k.key_q = true;
    let s = Rule::End.step(&k);
    assert!(s.quit && !s.save);
}

#[test]
fn modes_and_state() {
    Mode::Title.update();
    Mode::Play(PlayMode::Battle).display();
    PlayMode::Inventory.update();
    let inv = ItemInventory { bridge: 1, shovel: 2, ladder: 3 };
    assert_eq!(inv.shovel, 2);
    let st = GameState {};
    assert_eq!(st.to_stored(), SerDeGameState {});
    assert_eq!(GameState::from_stored(&SerDeGameState {}), GameState {});
}

#[test]
fn assets_register_models_in_order() {
    let mut assets: Assets<&str> = Assets::new("content".to_string());
    assert!(assets.get_model(ModelRef(0)).is_none());
    let a = assets.insert_model("cube");
    let b = assets.insert_model("sphere");
    assert_eq!(a, ModelRef(0));
    assert_eq!(b, ModelRef(1));
    assert_eq!(assets.get_model(b), Some(&"sphere"));
    assert!(assets.get_model(ModelRef(2)).is_none());
}
