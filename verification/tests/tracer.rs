//! Tests of the fixed-point ray-tracing kernel, from vector algebra up
//! to a full rendering.

use raytracer::num::{Fx, SCALE};
use raytracer::coords::{Vector, Point, UnitVector};
use raytracer::matrix::Matrix;
use raytracer::normal::Normal;
use raytracer::ray::Ray;
use raytracer::transform::Transform;
use raytracer::color::Color;
use raytracer::canvas::Canvas;
use raytracer::light::PointLight;
use raytracer::material::Material;
use raytracer::sphere::Sphere;
use raytracer::plane::Plane;
use raytracer::shape::Shape;
use raytracer::world::World;
use raytracer::camera::Camera;
use raytracer::view_transform::ViewTransform;

const SF: f64 = 4294967296.0;

fn fx(v: f64) -> Fx {
    Fx::from_raw((v * SF).round() as i64)
}

fn to_f(v: Fx) -> f64 {
    v.raw() as f64 / SF
}

fn vec3(x: f64, y: f64, z: f64) -> Vector {
    Vector::new(fx(x), fx(y), fx(z))
}

fn pt(x: f64, y: f64, z: f64) -> Point {
    Point::new(fx(x), fx(y), fx(z))
}

fn assert_fx_eq(a: Fx, b: f64) {
    assert!((to_f(a) - b).abs() < 1e-4, "{} != {}", to_f(a), b);
}

fn assert_vec_eq(a: Vector, b: Vector) {
    assert!(a.is_approx_equal(&b, fx(1e-4)), "{:?} != {:?}", a, b);
}

fn assert_pt_eq(a: Point, b: Point) {
    assert_vec_eq(a.as_vector(), b.as_vector());
}

fn assert_color_eq(a: Color, b: Color) {
    assert_fx_eq(a.r(), to_f(b.r()));
    assert_fx_eq(a.g(), to_f(b.g()));
    assert_fx_eq(a.b(), to_f(b.b()));
}

fn assert_roots(actual: &Vec<Fx>, expected: &[f64]) {
    assert_eq!(actual.len(), expected.len());
    for i in 0..expected.len() {
        assert_fx_eq(actual[i], expected[i]);
    }
}

const SQRT_2: f64 = std::f64::consts::SQRT_2;

// ------------------------------------------------------------------
// Vector and point algebra.

#[test]
fn add_vector_and_point() {
    let left = pt(3., -2., 5.);
    let right = vec3(-2., 3., 1.);

    let sum_left = left.add_vector(right);
    assert_pt_eq(sum_left, pt(1., 1., 6.));
}

#[test]
fn add_vector_and_vector() {
    let left = vec3(3., -2., 5.);
    let right = vec3(-2., 3., 1.);

    let sum_left = left.add(right);
    let sum_right = right.add(left);

    assert_vec_eq(sum_left, vec3(1., 1., 6.));
    assert_vec_eq(sum_left, sum_right);
}

#[test]
fn negate_vector() {
    let source = vec3(1., -2., 3.);

    let result = source.flip();
    assert_vec_eq(result, vec3(-1., 2., -3.));
}

#[test]
fn subtract_point_from_point_makes_a_vector() {
    let dest = pt(3., 2., 1.);
    let src = pt(5., 6., 7.);

    let result = dest.sub_point(src);
    assert_vec_eq(result, vec3(-2., -4., -6.));
}

#[test]
fn subtract_vector_from_point() {
    let left = pt(3., 2., 1.);
    let right = vec3(5., 6., 7.);

    let result = left.sub_vector(right);
    assert_pt_eq(result, pt(-2., -4., -6.));
}

#[test]
fn subtract_vector_from_vector() {
    let left = vec3(3., 2., 1.);
    let right = vec3(5., 6., 7.);

    let result = left.sub(right);
    assert_vec_eq(result, vec3(-2., -4., -6.));
}

#[test]
fn multiply_vector_by_scalar() {
    let vec = vec3(1., -2., 3.);
    assert_vec_eq(vec.scale(fx(3.5)), vec3(3.5, -7., 10.5));
}

#[test]
fn vector_magnitude() {
    assert_fx_eq(vec3(1., 0., 0.).magnitude(), 1.);
    assert_fx_eq(vec3(0., 1., 0.).magnitude(), 1.);
    assert_fx_eq(vec3(0., 0., 1.).magnitude(), 1.);
    assert_fx_eq(vec3(1., 2., 3.).magnitude(), 14.0_f64.sqrt());
}

#[test]
fn normalize_vector() {
    assert_vec_eq(vec3(4., 0., 0.).normalize().v(), vec3(1., 0., 0.));
    assert_vec_eq(
        vec3(1., 2., 2.).normalize().v(),
        vec3(1. / 3., 2. / 3., 2. / 3.),
    );
}

#[test]
fn test_if_vector_is_unit() {
    assert!(!vec3(4., 0., 0.).is_unit(), "Non-unit vector");
    assert!(vec3(1., 0., 0.).is_unit(), "Unit vector by default");
    assert!(
        vec3(1., 1., 0.).normalize().v().is_unit(),
        "Vector after normalization"
    );
}

#[test]
fn vector_cross_product() {
    let a = vec3(1., 2., 3.);
    let b = vec3(2., 3., 4.);

    assert_vec_eq(a.cross(b), vec3(-1., 2., -1.));
    assert_vec_eq(b.cross(a), vec3(1., -2., 1.));
}

#[test]
fn square_root_is_exact_on_squares() {
    assert_eq!(fx(9.).sqrt().raw(), fx(3.).raw());
    assert_eq!(fx(4.).sqrt().raw(), fx(2.).raw());
    assert_eq!(fx(0.).sqrt().raw(), 0);
}

// ------------------------------------------------------------------
// Matrices.

#[test]
fn translate_point() {
    let transform = Matrix::translation(&vec3(5., -3., 2.));
    let p = pt(-3., 4., 5.);
    assert_pt_eq(transform.apply_to_point(&p), pt(2., 1., 7.));
}

#[test]
fn translate_vector_does_not_affect_it() {
    let transform = Matrix::translation(&vec3(5., -3., 2.));
    let v = vec3(-3., 4., 5.);
    assert_vec_eq(transform.apply_to_vector(&v), v);
}

#[test]
fn multiply_matrices() {
    let a = Matrix::new(
        [1., 2., 3., 4., 5., 6., 7., 8., 9., 8., 7., 6., 5., 4., 3., 2.].map(fx),
    );
    let b = Matrix::new(
        [-2., 1., 2., 3., 3., 2., 1., -1., 4., 3., 6., 5., 1., 2., 7., 8.].map(fx),
    );

    let expected = Matrix::new(
        [
            20., 22., 50., 48., 44., 54., 114., 108., 40., 58., 110., 102., 16., 26., 46., 42.,
        ]
        .map(fx),
    );
    assert_eq!(a.matmul(&b), expected);
}

// ------------------------------------------------------------------
// Normals.

#[test]
fn create_normal_from_non_unit_vector() {
    let v = vec3(1., 1., 0.);
    let n = Normal::from_vector(&v);

    assert_vec_eq(n.as_unit().v(), vec3(SQRT_2 / 2., SQRT_2 / 2., 0.));
}

#[test]
fn reflect_vector_at_45_degrees_from_horizontal_surface() {
    let v = vec3(1., 1., 0.);
    let n = Normal::from_vector(&vec3(0., 1., 0.));

    let r = n.reflect(&v);
    assert_vec_eq(r, vec3(-1., 1., 0.));
}

#[test]
fn reflect_off_slanted_surface() {
    let v = vec3(0., 1., 0.);
    let n = Normal::from_vector(&vec3(SQRT_2 / 2., SQRT_2 / 2., 0.));

    let r = n.reflect(&v);
    assert_vec_eq(r, vec3(1., 0., 0.));
}

// ------------------------------------------------------------------
// Rays.

#[test]
fn calculate_ray_direction_from_origin_to_destination() {
    let origin = Point::zero();
    let destination = pt(1., 1., 0.);
    let ray = Ray::between(&origin, &destination);
    assert_vec_eq(ray.direction, vec3(SQRT_2 / 2., SQRT_2 / 2., 0.));
}

#[test]
fn compute_point_from_distance() {
    let ray = Ray::new(pt(2., 3., 4.), vec3(1., 0., 0.).normalize());

    assert_pt_eq(ray.position(fx(0.)), pt(2., 3., 4.));
    assert_pt_eq(ray.position(fx(1.)), pt(3., 3., 4.));
    assert_pt_eq(ray.position(fx(-1.)), pt(1., 3., 4.));
    assert_pt_eq(ray.position(fx(2.5)), pt(4.5, 3., 4.));
}

#[test]
fn translate_ray() {
    let ray = Ray::new(pt(1., 2., 3.), UnitVector::y_axis());
    let m = Matrix::translation(&vec3(3., 4., 5.));

    let transformed = ray.matmul(&m);
    assert_pt_eq(transformed.origin, pt(4., 6., 8.));
    assert_vec_eq(transformed.direction, vec3(0., 1., 0.));
}

#[test]
fn rotate_ray() {
    let ray = Ray::new(pt(1., 2., 3.), UnitVector::y_axis());
    let half_pi = std::f64::consts::PI / 2.;
    let m = Matrix::rotate_x(fx(half_pi.sin()), fx(half_pi.cos()));

    let transformed = ray.matmul(&m);
    assert_pt_eq(transformed.origin, pt(1., -3., 2.));
    assert_vec_eq(transformed.direction, vec3(0., 0., 1.));
}

#[test]
fn scale_ray_creates_non_unit_direction() {
    let ray = Ray::new(pt(1., 2., 3.), UnitVector::y_axis());
    let m = Matrix::diag(&vec3(2., 3., 4.));

    let transformed = ray.matmul(&m);
    assert_pt_eq(transformed.origin, pt(2., 6., 12.));
    assert_vec_eq(transformed.direction, vec3(0., 3., 0.));
}

#[test]
fn create_ray_from_normalized_direction_vector() {
    let origin = pt(2., 3., 4.);
    let direction = vec3(1., 0., 0.).normalize();
    let ray = Ray::new(origin, direction);
    assert_vec_eq(ray.direction, vec3(1., 0., 0.));
}

#[test]
fn compute_vector_projection() {
    let origin = pt(2., 3., 4.);
    let direction = vec3(1., 0., 0.).normalize();
    let ray = Ray::new(origin, direction);

    assert_fx_eq(ray.scalar_projection_of(&vec3(1., 1., 0.)), 1.);
    assert_fx_eq(ray.scalar_projection_of(&vec3(0., 1., 0.)), 0.);
    assert_fx_eq(ray.scalar_projection_of(&vec3(-1., 0., 0.)), -1.);
}

// ------------------------------------------------------------------
// Spheres.

#[test]
fn normal_towards_x_axis() {
    let n = Sphere::unit().normal_at(&pt(1., 0., 0.));
    assert_vec_eq(n.as_unit().v(), vec3(1., 0., 0.));
}

#[test]
fn normal_towards_y_axis() {
    let n = Sphere::unit().normal_at(&pt(0., 1., 0.));
    assert_vec_eq(n.as_unit().v(), vec3(0., 1., 0.));
}

#[test]
fn normal_towards_z_axis() {
    let n = Sphere::unit().normal_at(&pt(0., 0., 1.));
    assert_vec_eq(n.as_unit().v(), vec3(0., 0., 1.));
}

#[test]
fn normal_at_non_axial_point() {
    let sqrt_3 = 3.0_f64.sqrt();
    let n = Sphere::unit().normal_at(&pt(sqrt_3 / 3., sqrt_3 / 3., sqrt_3 / 3.));
    assert_vec_eq(n.as_unit().v(), vec3(sqrt_3 / 3., sqrt_3 / 3., sqrt_3 / 3.));
}

fn intersections_with_ray_from_origin(origin: Point) -> Vec<Fx> {
    let ray = Ray::new(origin, UnitVector::z_axis());
    Sphere::unit().intersect_with(&ray)
}

#[test]
fn ray_misses_sphere() {
    let xs = intersections_with_ray_from_origin(pt(0., 2., -5.));
    assert!(xs.is_empty());
}

#[test]
fn intersects_at_two_points() {
    let xs = intersections_with_ray_from_origin(pt(0., 0., -5.));
    assert_roots(&xs, &[4., 6.]);
}

#[test]
fn intersects_at_tangent() {
    let xs = intersections_with_ray_from_origin(pt(0., 1., -5.));
    assert_roots(&xs, &[5., 5.]);
}

#[test]
fn ray_originates_inside_sphere() {
    let xs = intersections_with_ray_from_origin(pt(0., 0., 0.));
    assert_roots(&xs, &[-1., 1.]);
}

#[test]
fn sphere_is_behind_ray() {
    let xs = intersections_with_ray_from_origin(pt(0., 0., 5.));
    assert_roots(&xs, &[-6., -4.]);
}

#[test]
fn intersect_translated_sphere_with_ray() {
    let sphere = Sphere::unit().with_transform(Transform::translate(fx(0.), fx(0.), fx(5.)));

    let ray = Ray::new(pt(0., 0., -5.), UnitVector::z_axis());
    let xs = sphere.intersect_with(&ray);
    assert_roots(&xs, &[9., 11.]);
}

#[test]
fn intersect_sphere_scaled_up_past_two() {
    let sphere = Sphere::unit().with_transform(Transform::scale(fx(4.), fx(4.), fx(4.)));

    let ray = Ray::new(pt(0., 0., -10.), UnitVector::z_axis());
    let xs = sphere.intersect_with(&ray);
    assert_roots(&xs, &[6., 14.]);
}

#[test]
fn normal_of_scaled_and_rotated_sphere() {
    let fifth = std::f64::consts::PI / 5.;
    let transform = Transform::rotate_z(fx(fifth.sin()), fx(fifth.cos()))
        .and_then(&Transform::scale(fx(1.), fx(0.5), fx(1.)));
    let sphere = Sphere::unit().with_transform(transform);

    let normal = sphere.normal_at(&pt(0., SQRT_2 / 2., -SQRT_2 / 2.));
    assert_vec_eq(normal.as_unit().v(), vec3(0., 0.97014, -0.24254));
}

#[test]
fn normal_of_translated_sphere() {
    let sphere = Sphere::unit().with_transform(Transform::translate(fx(0.), fx(1.), fx(0.)));

    let normal = sphere.normal_at(&pt(1., 1., 0.));
    assert_vec_eq(normal.as_unit().v(), vec3(1., 0., 0.));
}

// ------------------------------------------------------------------
// Planes.

#[test]
fn normal_is_constant() {
    let plane = Plane::new();
    let expected = vec3(0., 1., 0.);

    assert_vec_eq(plane.normal_at(&Point::zero()).as_unit().v(), expected);
    assert_vec_eq(plane.normal_at(&pt(10., 0., -10.)).as_unit().v(), expected);
    assert_vec_eq(plane.normal_at(&pt(-5., 0., 150.)).as_unit().v(), expected);
}

#[test]
fn intersect_with_parallel_ray() {
    let plane = Plane::new();
    let ray = Ray::new(pt(0., 10., 0.), UnitVector::z_axis());

    assert!(plane.intersect_with(&ray).is_empty());
}

#[test]
fn intersect_with_coplanar_ray() {
    let plane = Plane::new();
    let ray = Ray::new(pt(0., 0., 0.), UnitVector::z_axis());

    assert!(plane.intersect_with(&ray).is_empty());
}

#[test]
fn intersect_with_ray_from_above() {
    let plane = Plane::new();
    let ray = Ray::new(pt(0., 1., 0.), UnitVector::y_axis().flip());

    assert_roots(&plane.intersect_with(&ray), &[1.]);
}

#[test]
fn intersect_with_ray_from_below() {
    let plane = Plane::new();
    let ray = Ray::new(pt(0., -1., 0.), UnitVector::y_axis());

    assert_roots(&plane.intersect_with(&ray), &[1.]);
}

#[test]
fn apply_transform_to_normal() {
    let quarter = std::f64::consts::PI / 4.;
    let transform = Transform::rotate_x(fx(quarter.sin()), fx(quarter.cos()));
    let plane = Plane::new().with_transform(transform);

    let normal = plane.normal_at(&Point::zero());
    assert_vec_eq(normal.as_unit().v(), vec3(0., SQRT_2 / 2., SQRT_2 / 2.));
}

#[test]
fn apply_transform_to_ray() {
    let transform = Transform::translate(fx(0.), fx(-1.), fx(0.));
    let plane = Plane::new().with_transform(transform);

    let ray = Ray::new(pt(0., 1., 0.), UnitVector::y_axis().flip());
    assert_roots(&plane.intersect_with(&ray), &[2.]);
}

// ------------------------------------------------------------------
// Transforms.

#[test]
fn apply_rotation_around_x() {
    let quarter = std::f64::consts::PI / 4.;
    let original = vec3(0., 1., 0.);
    let transform = Transform::rotate_x(fx(quarter.sin()), fx(quarter.cos()));

    let rotated = transform.apply_to_vector(&original);
    let restored = transform.inverse().apply_to_vector(&rotated);

    assert_vec_eq(rotated, vec3(0., SQRT_2 / 2., SQRT_2 / 2.));
    assert_vec_eq(restored, original);
}

#[test]
fn apply_rotation_around_y() {
    let quarter = std::f64::consts::PI / 4.;
    let original = vec3(0., 0., 1.);
    let transform = Transform::rotate_y(fx(quarter.sin()), fx(quarter.cos()));

    let rotated = transform.apply_to_vector(&original);
    let restored = transform.inverse().apply_to_vector(&rotated);

    assert_vec_eq(rotated, vec3(SQRT_2 / 2., 0., SQRT_2 / 2.));
    assert_vec_eq(restored, original);
}

#[test]
fn rotate_around_z_axis() {
    let quarter = std::f64::consts::PI / 4.;
    let half = std::f64::consts::PI / 2.;
    let p = pt(0., 1., 0.);
    let half_quarter = Transform::rotate_z(fx(quarter.sin()), fx(quarter.cos()));
    let full_quarter = Transform::rotate_z(fx(half.sin()), fx(half.cos()));

    assert_pt_eq(half_quarter.apply_to_point(&p), pt(-SQRT_2 / 2., SQRT_2 / 2., 0.));
    assert_pt_eq(full_quarter.apply_to_point(&p), pt(-1., 0., 0.));
}

#[test]
fn apply_translation() {
    let original = Point::zero();
    let transform = Transform::translate(fx(1.), fx(2.), fx(3.));

    let translated = transform.apply_to_point(&original);
    let restored = transform.inverse().apply_to_point(&translated);

    assert_pt_eq(translated, pt(1., 2., 3.));
    assert_pt_eq(restored, original);
}

#[test]
fn apply_scaling() {
    let original = vec3(1., 2., 3.);
    let transform = Transform::scale(fx(2.), fx(3.), fx(4.));

    let scaled = transform.apply_to_vector(&original);
    let restored = transform.inverse().apply_to_vector(&scaled);

    assert_vec_eq(scaled, vec3(2., 6., 12.));
    assert_vec_eq(restored, original);
}

#[test]
fn translate_and_scale() {
    let original = pt(3., 2., 0.);
    let transform = Transform::translate(fx(1.), fx(1.), fx(0.))
        .and_then(&Transform::scale(fx(0.5), fx(0.5), fx(1.)));

    let transformed = transform.apply_to_point(&original);
    assert_pt_eq(transformed, pt(2., 1.5, 0.));
}

#[test]
fn scale_and_translate() {
    let original = pt(3., 2., 0.);
    let transform = Transform::scale(fx(0.5), fx(0.5), fx(1.))
        .and_then(&Transform::translate(fx(1.), fx(1.), fx(0.)));

    let transformed = transform.apply_to_point(&original);
    assert_pt_eq(transformed, pt(2.5, 2., 0.));
}

#[test]
fn rotate_around_point() {
    let half = std::f64::consts::PI / 2.;
    let transform = Transform::translate(fx(-1.), fx(-1.), fx(-1.))
        .and_then(&Transform::rotate_x(fx(half.sin()), fx(half.cos())))
        .and_then(&Transform::translate(fx(1.), fx(1.), fx(1.)));

    let original = pt(1., 2., 3.);

    let transformed = transform.apply_to_point(&original);
    let restored = transform.inverse().apply_to_point(&transformed);

    assert_pt_eq(transformed, pt(1., -1., 2.));
    assert_pt_eq(restored, original);
}

// ------------------------------------------------------------------
// Colors and canvas.

#[test]
fn color_arithmetic() {
    let c1 = Color::new(fx(0.9), fx(0.6), fx(0.75));
    let c2 = Color::new(fx(0.7), fx(0.1), fx(0.25));

    assert_color_eq(c1.add(c2), Color::new(fx(1.6), fx(0.7), fx(1.0)));
    assert_color_eq(c1.sub(c2), Color::new(fx(0.2), fx(0.5), fx(0.5)));
}

#[test]
fn multiply_color_by_scalar() {
    let c = Color::new(fx(0.2), fx(0.3), fx(0.4));
    assert_color_eq(c.scale(fx(2.)), Color::new(fx(0.4), fx(0.6), fx(0.8)));
}

#[test]
fn multiply_color_by_color() {
    let c1 = Color::new(fx(1.), fx(0.2), fx(0.4));
    let c2 = Color::new(fx(0.9), fx(1.), fx(0.1));

    assert_color_eq(c1.mul_pairwise(c2), Color::new(fx(0.9), fx(0.2), fx(0.04)));
}

#[test]
fn create_canvas() {
    let cnv = Canvas::new(10, 20);

    assert_eq!(cnv.width(), 10);
    assert_eq!(cnv.height(), 20);
    for pix in cnv.pixels() {
        assert_eq!(*pix, Color::black());
    }
}

#[test]
fn write_pixel_to_canvas() {
    let mut canvas = Canvas::new(10, 20);
    let red = Color::new(fx(1.), fx(0.), fx(0.));

    canvas.write_pixel(2, 3, &red);
    assert_eq!(canvas.pixel_at(2, 3), red);
}

// ------------------------------------------------------------------
// Lighting.

fn default_material() -> Material {
    Material::default_with_color(Color::white())
}

fn surface_normal() -> Normal {
    Normal::from_vector(&vec3(0., 0., -1.))
}

#[test]
fn light_strictly_behind_observer() {
    let light = PointLight::new(Color::white(), pt(0., 0., -10.));
    let eye_d = vec3(0., 0., -1.);

    let result = default_material().lighting(&light, &Point::zero(), &eye_d, &surface_normal(), false);
    assert_color_eq(result, Color::new(fx(1.9), fx(1.9), fx(1.9)));
}

#[test]
fn light_behind_observer_with_observer_offset() {
    let light = PointLight::new(Color::white(), pt(0., 0., -10.));
    let eye_d = vec3(0., 1., -1.).normalize().v();

    let result = default_material().lighting(&light, &Point::zero(), &eye_d, &surface_normal(), false);
    assert_color_eq(result, Color::new(fx(1.0), fx(1.0), fx(1.0)));
}

#[test]
fn observer_opposite_surface_with_light_offset() {
    let light = PointLight::new(Color::white(), pt(0., 10., -10.));
    let eye_d = vec3(0., 0., -1.);

    let result = default_material().lighting(&light, &Point::zero(), &eye_d, &surface_normal(), false);
    assert_color_eq(result, Color::new(fx(0.7364), fx(0.7364), fx(0.7364)));
}

#[test]
fn observer_in_path_of_reflection_vector() {
    let light = PointLight::new(Color::white(), pt(0., 10., -10.));
    let eye_d = vec3(0., -1., -1.).normalize().v();

    let result = default_material().lighting(&light, &Point::zero(), &eye_d, &surface_normal(), false);
    assert_color_eq(result, Color::new(fx(1.6364), fx(1.6364), fx(1.6364)));
}

#[test]
fn light_behind_surface() {
    let light = PointLight::new(Color::white(), pt(0., 0., 10.));
    let eye_d = vec3(0., 0., -1.);

    let result = default_material().lighting(&light, &Point::zero(), &eye_d, &surface_normal(), false);
    assert_color_eq(result, Color::new(fx(0.1), fx(0.1), fx(0.1)));
}

#[test]
fn use_light_intensity_to_calculate_result() {
    let light = PointLight::new(Color::new(fx(1.), fx(0.), fx(0.)), pt(0., 0., -10.));
    let eye_d = vec3(0., 1., -1.).normalize().v();

    let result = default_material().lighting(&light, &Point::zero(), &eye_d, &surface_normal(), false);
    assert_color_eq(result, Color::new(fx(1.), fx(0.), fx(0.)));
}

#[test]
fn use_material_color_to_calculate_result() {
    let material = Material::default_with_color(Color::new(fx(1.), fx(0.), fx(0.)));
    let light = PointLight::new(Color::white(), pt(0., 0., -10.));
    let eye_d = vec3(0., 1., -1.).normalize().v();

    let result = material.lighting(&light, &Point::zero(), &eye_d, &surface_normal(), false);
    assert_color_eq(result, Color::new(fx(1.), fx(0.), fx(0.)));
}

#[test]
fn shadow_suppresses_diffuse_and_specular() {
    let light = PointLight::new(Color::white(), pt(0., 0., -10.));
    let eye_d = vec3(0., 0., -1.);

    let result = default_material().lighting(&light, &Point::zero(), &eye_d, &surface_normal(), true);
    assert_color_eq(result, Color::new(fx(0.1), fx(0.1), fx(0.1)));
}

// ------------------------------------------------------------------
// The world.

fn test_light() -> PointLight {
    PointLight::new(Color::white(), pt(-10., 10., -10.))
}

fn world_with_unit_sphere() -> World {
    let mut world = World::new(test_light());
    world.add_shape(Shape::Sphere(Sphere::new(Point::zero(), fx(1.))));
    world
}

fn z_ray_from(x: f64, y: f64, z: f64) -> Ray {
    Ray::new(pt(x, y, z), UnitVector::z_axis())
}

#[test]
fn empty_world_produces_no_intersections() {
    let empty_world = World::new(test_light());

    let intersections = empty_world.intersect_with(&z_ray_from(0., 0., -5.));
    assert!(intersections.is_empty());
}

#[test]
fn intersect_world_with_ray() {
    let mut world = world_with_unit_sphere();
    world.add_shape(Shape::Sphere(Sphere::new(Point::zero(), fx(0.5))));

    let intersections = world.intersect_with(&z_ray_from(0., 0., -5.));
    let positions: Vec<Fx> = intersections.into_iter().map(|i| i.distance).collect();
    assert_roots(&positions, &[4., 4.5, 5.5, 6.]);
}

#[test]
fn ignore_intersections_in_negative_directions() {
    let world = world_with_unit_sphere();
    let ray_from_inside = z_ray_from(0., 0., 0.);

    let intersections = world.intersect_with(&ray_from_inside);
    let positions: Vec<Fx> = intersections.into_iter().map(|i| i.distance).collect();
    assert_roots(&positions, &[1.0]);
}

#[test]
fn intersections_outside_working_range_are_missed() {
    let world = world_with_unit_sphere();
    let far_ray = z_ray_from(1.0e6, 0., 0.);

    assert!(world.intersect_with(&far_ray).is_empty());
}

#[test]
fn ray_hits_object_from_outside() {
    let world = world_with_unit_sphere();
    let hit = world.hit_with_ray(&z_ray_from(0., 0., -5.)).unwrap();

    assert_eq!(hit.shape_index, 0);
    assert_pt_eq(hit.point, pt(0., 0., -1.));
    assert_vec_eq(hit.eye_direction.v(), vec3(0., 0., -1.));
    assert_vec_eq(hit.normal.as_unit().v(), vec3(0., 0., -1.));
}

#[test]
fn ray_hits_object_from_inside_flips_the_normal() {
    let world = world_with_unit_sphere();
    let hit = world.hit_with_ray(&z_ray_from(0., 0., 0.)).unwrap();

    assert_eq!(hit.shape_index, 0);
    assert_pt_eq(hit.point, pt(0., 0., 1.));
    assert_vec_eq(hit.eye_direction.v(), vec3(0., 0., -1.));
    assert_vec_eq(hit.normal.as_unit().v(), vec3(0., 0., -1.));
}

#[test]
fn cast_ray_hits_closest_object() {
    let mut world = World::new(test_light());

    let front_shape = Sphere::new(pt(0., 0., -4.), fx(0.1));
    let back_shape = Sphere::new(pt(0., 0., -1.), fx(0.1));

    world.add_shape(Shape::Sphere(back_shape));
    let front_shape_index = world.add_shape(Shape::Sphere(front_shape));
    let hit = world.hit_with_ray(&z_ray_from(0., 0., -5.)).unwrap();

    assert_eq!(hit.shape_index, front_shape_index);
}

#[test]
fn not_shadowed_when_nothing_is_collinear_with_point_and_light() {
    let world = world_with_unit_sphere();
    assert!(!world.is_shadowed(&pt(0., 10., 0.)));
}

#[test]
fn not_shadowed_when_object_behind_the_light() {
    let world = world_with_unit_sphere();
    assert!(!world.is_shadowed(&pt(-20., 20., -20.)));
}

#[test]
fn not_shadowed_when_object_behind_the_point() {
    let world = world_with_unit_sphere();
    assert!(!world.is_shadowed(&pt(-20., 20., -20.)));
}

#[test]
fn shadowed_when_object_between_point_and_light() {
    let world = world_with_unit_sphere();
    assert!(world.is_shadowed(&pt(10., -10., 10.)));
}

// ------------------------------------------------------------------
// View transform and camera.

#[test]
fn choose_view_direction_in_xz_plane() {
    let look_at = pt(1., 0., -1.);
    let transform = ViewTransform::new(&Point::zero(), &look_at, &vec3(0., 1., 0.));

    let view_point = pt(0., 0., SQRT_2);
    let world_point = transform.to_world(&view_point);
    assert_pt_eq(world_point, look_at);
}

#[test]
fn specify_custom_up_direction() {
    let look_at = pt(0., 0., 1.);
    let up = vec3(1., 1., 1.);
    let transform = ViewTransform::new(&Point::zero(), &look_at, &up);

    let view_point = pt(1., 1., 5.);
    let world_point = transform.to_world(&view_point);
    assert_pt_eq(world_point, pt(SQRT_2, 0., 5.));
}

#[test]
fn specify_custom_from_point() {
    let look_from = pt(2., 0., -2.);
    let transform = ViewTransform::new(&look_from, &Point::zero(), &vec3(0., 1., 0.));

    let view_point = pt(0., 0., SQRT_2);
    let world_point = transform.to_world(&view_point);
    assert_pt_eq(world_point, pt(1., 0., -1.));
}

fn tan_half(fov: f64) -> Fx {
    fx((fov / 2.).tan())
}

#[test]
fn pixel_size_of_a_horizontal_canvas() {
    let c = Camera::new(200, 125, tan_half(std::f64::consts::PI / 2.));
    assert_fx_eq(c.pixel_size, 0.01);
}

#[test]
fn pixel_size_of_a_vertical_canvas() {
    let c = Camera::new(125, 200, tan_half(std::f64::consts::PI / 2.));
    assert_fx_eq(c.pixel_size, 0.01);
}

#[test]
fn direction_to_the_canvas_center() {
    let c = Camera::new(201, 101, tan_half(std::f64::consts::PI / 2.));
    let r = c.cast_ray_at(100, 50);
    assert_vec_eq(r.direction, vec3(0., 0., -1.));
}

#[test]
fn direction_to_canvas_corner() {
    let c = Camera::new(201, 101, tan_half(std::f64::consts::PI / 2.));
    let r = c.cast_ray_at(0, 0);
    assert_vec_eq(r.direction, vec3(0.665186, 0.332593, -0.668512));
}

#[test]
fn direction_to_canvas_corner_with_positive_z_direction() {
    let c = Camera::new(201, 101, tan_half(std::f64::consts::PI / 2.)).with_transform(
        &Point::zero(),
        &pt(0., 0., 1.),
        &vec3(0., 1., 0.),
    );

    let r = c.cast_ray_at(0, 0);
    assert_vec_eq(r.direction, vec3(-0.665186, 0.332593, 0.668512));
}

#[test]
fn matrix_application_composes() {
    let quarter = std::f64::consts::PI / 4.;
    let a = Matrix::translation(&vec3(1., -2., 3.));
    let b = Matrix::rotate_x(fx(quarter.sin()), fx(quarter.cos()));
    let p = pt(2., 3., -4.);

    let composed = a.matmul(&b).apply_to_point(&p);
    let stepwise = a.apply_to_point(&b.apply_to_point(&p));
    assert_pt_eq(composed, stepwise);
}

#[test]
fn fill_canvas_with_one_color() {
    let mut canvas = Canvas::new(4, 3);
    let tone = Color::new(fx(0.25), fx(0.5), fx(0.75));

    canvas.fill(&tone);
    for pix in canvas.pixels() {
        assert_eq!(*pix, tone);
    }
}

// ------------------------------------------------------------------
// End to end: rendering a one-sphere scene.

#[test]
fn render_one_sphere_scene() {
    let mut world = World::new(test_light());
    world.add_shape(Shape::Sphere(Sphere::new(Point::zero(), fx(1.))));

    let camera = Camera::new(11, 11, tan_half(std::f64::consts::PI / 2.)).with_transform(
        &pt(0., 0., -5.),
        &Point::zero(),
        &vec3(0., 1., 0.),
    );

    let canvas = world.render(&camera);
    assert_eq!(canvas.width(), 11);
    assert_eq!(canvas.height(), 11);

    // The centre pixel's ray runs through the sphere and is lit.
    let centre = canvas.pixel_at(5, 5);
    assert!(centre.r().raw() > 0 || centre.g().raw() > 0 || centre.b().raw() > 0);

    // A corner ray misses the sphere; the background stays exactly black.
    let corner = canvas.pixel_at(0, 0);
    assert_eq!(corner, Color::black());
}
