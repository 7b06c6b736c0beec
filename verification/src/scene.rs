//! The demonstration scene: a walled box with two matte spheres, a small
//! spherical lamp, mirrored and coloured walls, and a ceiling light, all in
//! fixed point (one world unit is 65536).

use vstd::prelude::*;

use crate::geometry::{wf_primitive, Primitive, Sphere, Triangle};
use crate::materials::{green_solid, red_solid, white_light, white_mirror, white_solid};
use crate::tracer::wf_scene;
use crate::vec3::Vec3;

verus! {

/// Builds the demonstration scene in its fixed primitive order.
pub fn demo_scene() -> (v: Vec<Primitive>)
    ensures
        wf_scene(v@),
        v@.len() == 17,
{
    let white = white_solid();
    let red = red_solid();
    let green = green_solid();
    let mirror = white_mirror();
    let light = white_light();
    let sphere_1 = Primitive::Sphere(
        Sphere { radius: 262144, position: Vec3 { x: -262144, y: -393216, z: 0 }, material: mirror },
    );
    let sphere_2 = Primitive::Sphere(
        Sphere { radius: 131072, position: Vec3 { x: 131072, y: -524288, z: 0 }, material: white },
    );
    let sphere_3 = Primitive::Sphere(
        Sphere { radius: 65536, position: Vec3 { x: 262144, y: -589824, z: 589824 }, material: light },
    );
    let floor_1 = Primitive::Triangle(
        Triangle {
            a: Vec3 { x: 655360, y: -655360, z: -655360 },
            b: Vec3 { x: -655360, y: -655360, z: 655360 },
            c: Vec3 { x: 655360, y: -655360, z: 655360 },
            material: white,
        },
    );
    let floor_2 = Primitive::Triangle(
        Triangle {
            a: Vec3 { x: 655360, y: -655360, z: -655360 },
            b: Vec3 { x: -655360, y: -655360, z: -655360 },
            c: Vec3 { x: -655360, y: -655360, z: 655360 },
            material: white,
        },
    );
    let roof_1 = Primitive::Triangle(
        Triangle {
            a: Vec3 { x: 655360, y: 655360, z: 655360 },
            b: Vec3 { x: -655360, y: 655360, z: -655360 },
            c: Vec3 { x: 655360, y: 655360, z: -655360 },
            material: white,
        },
    );
    let roof_2 = Primitive::Triangle(
        Triangle {
            a: Vec3 { x: -655360, y: 655360, z: -655360 },
            b: Vec3 { x: 655360, y: 655360, z: 655360 },
            c: Vec3 { x: -655360, y: 655360, z: 655360 },
            material: white,
        },
    );
    let light_1 = Primitive::Triangle(
        Triangle {
            a: Vec3 { x: 327680, y: 648806, z: 327680 },
            b: Vec3 { x: -327680, y: 648806, z: -327680 },
            c: Vec3 { x: 327680, y: 648806, z: -327680 },
            material: light,
        },
    );
    let light_2 = Primitive::Triangle(
        Triangle {
            a: Vec3 { x: -327680, y: 648806, z: -327680 },
            b: Vec3 { x: 327680, y: 648806, z: 327680 },
            c: Vec3 { x: -327680, y: 648806, z: 327680 },
            material: light,
        },
    );
    let wall_s_1 = Primitive::Triangle(
        Triangle {
            a: Vec3 { x: -655360, y: 655360, z: -655360 },
            b: Vec3 { x: 655360, y: -655360, z: -655360 },
            c: Vec3 { x: 655360, y: 655360, z: -655360 },
            material: mirror,
        },
    );
    let wall_s_2 = Primitive::Triangle(
        Triangle {
            a: Vec3 { x: -655360, y: -655360, z: -655360 },
            b: Vec3 { x: 655360, y: -655360, z: -655360 },
            c: Vec3 { x: -655360, y: 655360, z: -655360 },
            material: red,
        },
    );
    let wall_e_1 = Primitive::Triangle(
        Triangle {
            a: Vec3 { x: 655360, y: 655360, z: -655360 },
            b: Vec3 { x: 655360, y: -655360, z: 655360 },
            c: Vec3 { x: 655360, y: 655360, z: 655360 },
            material: red,
        },
    );
    let wall_e_2 = Primitive::Triangle(
        Triangle {
            a: Vec3 { x: 655360, y: 655360, z: -655360 },
            b: Vec3 { x: 655360, y: -655360, z: -655360 },
            c: Vec3 { x: 655360, y: -655360, z: 655360 },
            material: red,
        },
    );
    let wall_w_1 = Primitive::Triangle(
        Triangle {
            a: Vec3 { x: -655360, y: 655360, z: -655360 },
            b: Vec3 { x: -655360, y: -655360, z: 655360 },
            c: Vec3 { x: -655360, y: -655360, z: -655360 },
            material: green,
        },
    );
    let wall_w_2 = Primitive::Triangle(
        Triangle {
            a: Vec3 { x: -655360, y: 655360, z: -655360 },
            b: Vec3 { x: -655360, y: 655360, z: 655360 },
            c: Vec3 { x: -655360, y: -655360, z: 655360 },
            material: green,
        },
    );
    let wall_n_1 = Primitive::Triangle(
        Triangle {
            a: Vec3 { x: -655360, y: 655360, z: 655360 },
            b: Vec3 { x: 655360, y: -655360, z: 655360 },
            c: Vec3 { x: -655360, y: -655360, z: 655360 },
            material: white,
        },
    );
    let wall_n_2 = Primitive::Triangle(
        Triangle {
            a: Vec3 { x: 655360, y: 655360, z: 655360 },
            b: Vec3 { x: 655360, y: -655360, z: 655360 },
            c: Vec3 { x: -655360, y: 655360, z: 655360 },
            material: white,
        },
    );
    let mut v: Vec<Primitive> = Vec::new();
    v.push(roof_1);
    v.push(roof_2);
    v.push(sphere_1);
    v.push(sphere_2);
    v.push(sphere_3);
    v.push(floor_1);
    v.push(floor_2);
    v.push(wall_s_1);
    v.push(wall_s_2);
    v.push(wall_e_1);
    v.push(wall_e_2);
    v.push(wall_w_1);
    v.push(wall_w_2);
    v.push(wall_n_1);
    v.push(wall_n_2);
    v.push(light_1);
    v.push(light_2);
    proof {
        assert forall|i: int| 0 <= i < v@.len() implies wf_primitive(#[trigger] v@[i]) by {
            assert(wf_primitive(v@[0]));
            assert(wf_primitive(v@[1]));
            assert(wf_primitive(v@[2]));
            assert(wf_primitive(v@[3]));
            assert(wf_primitive(v@[4]));
            assert(wf_primitive(v@[5]));
            assert(wf_primitive(v@[6]));
            assert(wf_primitive(v@[7]));
            assert(wf_primitive(v@[8]));
            assert(wf_primitive(v@[9]));
            assert(wf_primitive(v@[10]));
            assert(wf_primitive(v@[11]));
            assert(wf_primitive(v@[12]));
            assert(wf_primitive(v@[13]));
            assert(wf_primitive(v@[14]));
            assert(wf_primitive(v@[15]));
            assert(wf_primitive(v@[16]));
        }
    }
    v
}

} // verus!
