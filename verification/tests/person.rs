use image_generator::person::{new_person, Person};
use image_generator::scene::demo_scene;
use image_generator::materials::{white_light, white_solid};
use image_generator::fixed::SCALE;

#[test]
fn test_new_person_fields() {
    let p = new_person("John".to_string(), "Doe".to_string(), 32, 10, 8);
    assert_eq!(p.name.first, "John");
    assert_eq!(p.name.last, "Doe");
    assert_eq!(p.age, 32);
    assert_eq!(p.dob.month, 10);
    assert_eq!(p.dob.day, 8);
}

#[test]
fn test_person_to_string() {
    let p = new_person("John".to_string(), "Doe".to_string(), 32, 10, 8);
    assert_eq!(p.to_string(), "John Doe, aged 32, DOB: Oct, 8");
}

#[test]
fn test_person_to_string_edges() {
    let p = new_person("Ada".to_string(), "Lovelace".to_string(), 255, 12, 10);
    assert_eq!(p.to_string(), "Ada Lovelace, aged 255, DOB: Dec, 10");
    let q = new_person("A".to_string(), "B".to_string(), 0, 13, 1);
    assert_eq!(q.to_string(), "A B, aged 0, DOB: N/A, 1");
}

#[test]
fn test_person_struct_roundtrip() {
    let p = Person {
        name: image_generator::person::Name {
            first: "Grace".to_string(),
            last: "Hopper".to_string(),
        },
        age: 85,
        dob: image_generator::person::Date { day: 9, month: 12 },
    };
    assert_eq!(p.to_string(), "Grace Hopper, aged 85, DOB: Dec, 9");
}

#[test]
fn test_demo_scene_shape() {
    let scene = demo_scene();
    assert_eq!(scene.len(), 17);
}

#[test]
fn test_material_builders() {
    let w = white_solid();
    assert_eq!(w.diffuse_color.x, SCALE);
    assert_eq!(w.emission_strength, 0);
    let l = white_light();
    assert_eq!(l.emission_strength, SCALE);
    assert_eq!(l.emission_color.y, SCALE);
}
