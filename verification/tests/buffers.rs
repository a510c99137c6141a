use dem_settings::buffers::{COLLISION_WORDS, RENDER_WORDS};
use dem_settings::edit::Edit;
use dem_settings::settings::Settings;

#[test]
fn collision_words_come_in_the_layout_order() {
    let mut s = Settings::new();
    s.hor_bound = 6.0f32.to_bits();
    s.vert_bound = 4.0f32.to_bits();
    s.friction_coefficient = 0.25f32.to_bits();
    s.gravity_acceleration = 20.0f32.to_bits();
    s.stiffness = 2.5f32.to_bits();
    s.bond_force_limit = 0.75f32.to_bits();
    s.gravity = true;
    s.bonds = false;
    s.collisions = true;
    s.friction = false;
    s.rotation = true;
    s.linear_contact_bonds = false;
    s.bond_tearing = true;
    let words = s.collison_settings();
    assert_eq!(
        words,
        vec![
            6.0f32.to_bits(),
            4.0f32.to_bits(),
            1,
            0,
            1,
            0,
            0.25f32.to_bits(),
            1,
            0,
            20.0f32.to_bits(),
            2.5f32.to_bits(),
            1,
            0.75f32.to_bits(),
        ]
    );
}

#[test]
fn collision_words_of_the_initial_preset() {
    let mut s = Settings::new();
    let words = s.collison_settings();
    assert_eq!(words.len(), COLLISION_WORDS);
    assert_eq!(words.len(), 13);
    let numbers: Vec<f32> = words.iter().map(|w| f32::from_bits(*w)).collect();
    assert_eq!(numbers[0], 1.333);
    assert_eq!(numbers[1], 1.0);
    assert_eq!(numbers[6], 0.5);
    assert_eq!(numbers[9], 9.8);
    assert_eq!(numbers[10], 0.1);
    assert_eq!(numbers[12], 0.5);
    assert_eq!(
        [words[2], words[3], words[4], words[5], words[7], words[8], words[11]],
        [1, 1, 1, 1, 1, 1, 0]
    );
}

#[test]
fn each_switch_has_its_own_collision_word() {
    let base = {
        let mut s = Settings::new();
        s.gravity = false;
        s.bonds = false;
        s.collisions = false;
        s.friction = false;
        s.rotation = false;
        s.linear_contact_bonds = false;
        s.bond_tearing = false;
        s
    };
    let places = [2usize, 3, 4, 5, 7, 8, 11];
    for (k, place) in places.iter().enumerate() {
        let mut s = base;
        match k {
            0 => s.gravity = true,
            1 => s.bonds = true,
            2 => s.collisions = true,
            3 => s.friction = true,
            4 => s.rotation = true,
            5 => s.linear_contact_bonds = true,
            _ => s.bond_tearing = true,
        }
        let words = s.collison_settings();
        for p in places.iter() {
            assert_eq!(words[*p], (p == place) as u32);
        }
    }
}

#[test]
fn a_switch_word_is_the_smallest_positive_pattern() {
    let mut s = Settings::new();
    let words = s.collison_settings();
    let as_number = f32::from_bits(words[2]);
    assert!(as_number > 0.0 && as_number < f32::MIN_POSITIVE);
    let back: i32 = words[2] as i32;
    assert_eq!(back, 1);
}

#[test]
fn taking_the_collision_words_clears_the_stale_mark() {
    let mut s = Settings::new();
    s.changed_collision_settings = true;
    let before = s;
    let first = s.collison_settings();
    assert!(!s.changed_collision_settings);
    let second = s.collison_settings();
    assert_eq!(first, second);
    assert!(!s.changed_collision_settings);
    s.changed_collision_settings = true;
    assert_eq!(s, before);
}

#[test]
fn gravity_edit_reaches_the_tenth_collision_word() {
    let mut s = Settings::new();
    assert_eq!(s.gravity_acceleration, 9.8f32.to_bits());
    assert!(!s.changed_collision_settings);
    assert!(!s.apply(Edit::GravityAcceleration(20.0f32.to_bits())));
    assert!(s.changed_collision_settings);
    let words = s.collison_settings();
    assert_eq!(f32::from_bits(words[9]), 20.0);
    assert!(!s.changed_collision_settings);
}

#[test]
fn gravity_edit_through_the_open_surface_marks_the_words_stale() {
    let mut s = Settings::new();
    s.settings_menu = true;
    assert!(!s.ui(Edit::GravityAcceleration(20.0f32.to_bits())));
    assert!(s.changed_collision_settings);
    assert_eq!(s.collison_settings()[9], 20.0f32.to_bits());
    assert!(!s.changed_collision_settings);
}

#[test]
fn render_words_come_in_the_layout_order() {
    let mut s = Settings::new();
    s.circular_particles = false;
    s.render_rot = true;
    s.color_code_rot = false;
    s.colors = 77;
    s.bonds = true;
    s.render_bonds = true;
    s.hor_bound = 6.0f32.to_bits();
    s.vert_bound = 4.0f32.to_bits();
    s.stiffness = 2.5f32.to_bits();
    let words = s.render_settings();
    assert_eq!(
        words,
        vec![0, 1, 0, 77, 1, 0x40C0_0000, 0x4080_0000, 0x4020_0000]
    );
    assert_eq!(words.len(), RENDER_WORDS);
}

#[test]
fn render_words_give_the_bits_back() {
    let mut s = Settings::new();
    s.hor_bound = (-6.0f32).to_bits();
    s.vert_bound = f32::MAX.to_bits();
    s.stiffness = 0xFFFF_FFFF;
    let words = s.render_settings();
    assert_eq!(words.len(), 8);
    assert_eq!(words[5], (-6.0f32).to_bits() as i32);
    assert!(words[5] < 0);
    assert_eq!(f32::from_bits(words[5] as u32), -6.0);
    assert_eq!(f32::from_bits(words[6] as u32), f32::MAX);
    assert_eq!(words[7], -1);
    assert_eq!(words[7] as u32, 0xFFFF_FFFF);
}

#[test]
fn bonds_are_drawn_only_where_they_are_simulated() {
    for bonds in [false, true] {
        for render_bonds in [false, true] {
            let mut s = Settings::new();
            s.bonds = bonds;
            s.render_bonds = render_bonds;
            assert_eq!(s.render_settings()[4], (bonds && render_bonds) as i32);
        }
    }
}

#[test]
fn render_words_leave_the_record() {
    let mut s = Settings::new();
    s.changed_collision_settings = true;
    let before = s;
    let first = s.render_settings();
    let second = s.render_settings();
    assert_eq!(first, second);
    assert_eq!(s, before);
}
