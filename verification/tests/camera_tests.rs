use pathtracer::camera::{
    channel, clamp, half_angle, mean, pixel, ray_colour, sky, sum, Camera, CameraError, LensPoint,
    Pixel,
};
use pathtracer::hittable::{Hittable, World};
use pathtracer::material::{Lambertian, Surface};
use pathtracer::ppm::{decimal, header, pixel_line, text};
use pathtracer::ray::Ray;
use pathtracer::scalar::Scalar;
use pathtracer::sphere::Sphere;
use pathtracer::vec3::Vec3;
use std::sync::Arc;

fn s(x: f32) -> Scalar {
    Scalar::from_bits(x.to_bits())
}

fn f(x: Scalar) -> f32 {
    f32::from_bits(x.to_bits())
}

fn v(x: f32, y: f32, z: f32) -> Vec3 {
    Vec3::from_point(s(x), s(y), s(z))
}

fn parts(a: Vec3) -> (f32, f32, f32) {
    (f(a.x), f(a.y), f(a.z))
}

fn close(a: Vec3, b: (f32, f32, f32)) -> bool {
    let (x, y, z) = parts(a);
    (x - b.0).abs() < 1e-5 && (y - b.1).abs() < 1e-5 && (z - b.2).abs() < 1e-5
}

fn simple_camera(width: u32, samples: u32, depth: u32) -> Camera {
    Camera::new(
        s(2.0),
        width,
        samples,
        depth,
        s(90.0),
        s(0.0),
        s(1.0),
        v(0.0, 0.0, 0.0),
        v(0.0, 0.0, -1.0),
        v(0.0, 1.0, 0.0),
    )
    .unwrap()
}

fn one_sphere() -> World {
    let grey = Arc::new(Surface::Lambertian(Lambertian::new(v(0.5, 0.5, 0.5))));
    let mut world: World = Vec::new();
    world.push(Box::new(Sphere::stationary_from_dim(v(0.0, 0.0, -1.0), s(0.5), grey)));
    world
}

fn with_magic(rest: &str) -> Vec<u8> {
    let mut out = vec![b'P', b'3', b'\n'];
    out.extend_from_slice(rest.as_bytes());
    out
}

fn sky_of(direction: (f32, f32, f32)) -> (f32, f32, f32) {
    let length = (direction.0 * direction.0 + direction.1 * direction.1
        + direction.2 * direction.2)
        .sqrt();
    let a = 0.5 * (direction.1 / length + 1.0);
    (1.0 * (1.0 - a) + 0.5 * a, 1.0 * (1.0 - a) + 0.7 * a, 1.0 * (1.0 - a) + 1.0 * a)
}

#[test]
fn camera_derives_its_viewport() {
    let camera = simple_camera(4, 1, 1);
    assert_eq!(camera.image_width, 4);
    assert_eq!(camera.image_height, 2);
    assert_eq!(camera.samples_per_pixel, 1);
    assert_eq!(camera.max_depth, 1);
    assert_eq!(parts(camera.camera_center), (0.0, 0.0, 0.0));
    assert!(close(camera.delta_u, (1.0, 0.0, 0.0)));
    assert!(close(camera.delta_v, (0.0, -1.0, 0.0)));
    assert!(close(camera.init_pixel_loc, (-1.5, 0.5, -1.0)));
    assert!(close(camera.defocus_u, (0.0, 0.0, 0.0)));
    assert!(close(camera.defocus_v, (0.0, 0.0, 0.0)));
}

#[test]
fn camera_from_tangents_is_exact() {
    let camera = Camera::from_tangents(
        s(2.0),
        4,
        3,
        5,
        s(90.0),
        s(10.0),
        s(2.0),
        v(0.0, 0.0, 0.0),
        v(0.0, 0.0, -1.0),
        v(0.0, 1.0, 0.0),
        s(1.0),
        s(0.25),
    )
    .unwrap();
    assert_eq!(camera.image_height, 2);
    assert_eq!(parts(camera.delta_u), (2.0, 0.0, 0.0));
    assert_eq!(parts(camera.delta_v), (0.0, -2.0, 0.0));
    assert_eq!(parts(camera.init_pixel_loc), (-3.0, 1.0, -2.0));
    assert_eq!(parts(camera.defocus_u), (0.5, 0.0, 0.0));
    assert_eq!(parts(camera.defocus_v), (0.0, 0.5, 0.0));
    assert_eq!(f(camera.vfov), 90.0);
    assert_eq!(f(camera.defocus_angle), 10.0);
    assert_eq!(f(camera.focus_distance), 2.0);
    assert_eq!(f(camera.aspect_ratio), 2.0);
    assert_eq!(parts(camera.lookat), (0.0, 0.0, -1.0));
    assert_eq!(parts(camera.vup), (0.0, 1.0, 0.0));
}

#[test]
fn image_height_is_cut_to_an_integer() {
    let camera = Camera::new(
        s(16.0 / 9.0),
        1200,
        1,
        1,
        s(20.0),
        s(0.6),
        s(10.0),
        v(13.0, 2.0, 3.0),
        v(0.0, 0.0, 0.0),
        v(0.0, 1.0, 0.0),
    )
    .unwrap();
    assert_eq!(camera.image_height, (1200.0f32 / (16.0f32 / 9.0)) as u32);
    assert_eq!(camera.image_height, 675);
    assert_eq!(
        Camera::new(
            s(3.0),
            100,
            1,
            1,
            s(20.0),
            s(0.0),
            s(1.0),
            v(0.0, 0.0, 0.0),
            v(0.0, 0.0, -1.0),
            v(0.0, 1.0, 0.0)
        )
        .unwrap()
        .image_height,
        33
    );
}

#[test]
fn camera_without_a_row_is_refused() {
    let narrow = Camera::new(
        s(100.0),
        50,
        1,
        1,
        s(90.0),
        s(0.0),
        s(1.0),
        v(0.0, 0.0, 0.0),
        v(0.0, 0.0, -1.0),
        v(0.0, 1.0, 0.0),
    );
    assert_eq!(narrow.err(), Some(CameraError::InvalidConfiguration));
    let no_width = Camera::new(
        s(1.0),
        0,
        1,
        1,
        s(90.0),
        s(0.0),
        s(1.0),
        v(0.0, 0.0, 0.0),
        v(0.0, 0.0, -1.0),
        v(0.0, 1.0, 0.0),
    );
    assert_eq!(no_width.err(), Some(CameraError::InvalidConfiguration));
    let no_ratio = Camera::new(
        s(f32::NAN),
        100,
        1,
        1,
        s(90.0),
        s(0.0),
        s(1.0),
        v(0.0, 0.0, 0.0),
        v(0.0, 0.0, -1.0),
        v(0.0, 1.0, 0.0),
    );
    assert_eq!(no_ratio.err(), Some(CameraError::InvalidConfiguration));
    let one_row = Camera::new(
        s(50.0),
        50,
        1,
        1,
        s(90.0),
        s(0.0),
        s(1.0),
        v(0.0, 0.0, 0.0),
        v(0.0, 0.0, -1.0),
        v(0.0, 1.0, 0.0),
    );
    assert_eq!(one_row.unwrap().image_height, 1);
}

#[test]
fn half_angle_is_in_radians() {
    assert_eq!(f(half_angle(s(90.0))), (90.0f32.to_radians()) / 2.0);
    assert_eq!(f(half_angle(s(20.0))), (20.0f32.to_radians()) / 2.0);
    assert_eq!(f(half_angle(s(0.6))), (0.6f32.to_radians()) / 2.0);
}

#[test]
fn ray_through_a_pixel() {
    let camera = simple_camera(4, 1, 1);
    let r = camera.ray_through(3, 1, v(0.0, 0.0, 0.0), v(0.0, 0.0, 0.0));
    assert_eq!(parts(r.origin), (0.0, 0.0, 0.0));
    assert!(close(r.direction, (1.5, -0.5, -1.0)));
    assert_eq!(f(r.time), 0.0);
    let moved = camera.ray_through(0, 0, v(0.25, -0.25, 0.0), v(0.5, 0.0, 0.0));
    assert_eq!(parts(moved.origin), (0.5, 0.0, 0.0));
    assert!(close(moved.direction, (-1.75, 0.25, -1.0)));
}

#[test]
fn get_ray_stays_within_its_pixel() {
    let camera = simple_camera(4, 1, 1);
    for _ in 0..200 {
        let r = camera.get_ray(2, 0);
        assert_eq!(parts(r.origin), (0.0, 0.0, 0.0));
        let (x, y, z) = parts(r.direction);
        assert!(0.5 - 1e-5 <= x && x < 1.0 + 1e-5);
        assert!(0.0 - 1e-5 < y && y <= 0.5 + 1e-5);
        assert!((z + 1.0).abs() < 1e-5);
    }
}

#[test]
fn pixel_sample_square_is_half_a_pixel() {
    let camera = simple_camera(4, 1, 1);
    for _ in 0..200 {
        let (x, y, z) = parts(camera.pixel_sample_square());
        assert!(-1e-5 <= x && x < 0.5 + 1e-5);
        assert!(-0.5 - 1e-5 < y && y <= 1e-5);
        assert!(z.abs() < 1e-5);
    }
}

#[test]
fn sample_disc_stays_on_the_lens() {
    let camera = Camera::from_tangents(
        s(2.0),
        4,
        1,
        1,
        s(90.0),
        s(10.0),
        s(2.0),
        v(0.0, 0.0, 0.0),
        v(0.0, 0.0, -1.0),
        v(0.0, 1.0, 0.0),
        s(1.0),
        s(0.25),
    )
    .unwrap();
    let mut off_centre = false;
    for _ in 0..200 {
        let (x, y, z) = parts(camera.sample_disc());
        assert!(x * x + y * y < 0.25 + 1e-5);
        assert_eq!(z, 0.0);
        if x != 0.0 || y != 0.0 {
            off_centre = true;
        }
        let r = camera.get_ray(1, 1);
        let (ox, oy, oz) = parts(r.origin);
        assert!(ox * ox + oy * oy < 0.25 + 1e-5);
        assert_eq!(oz, 0.0);
    }
    assert!(off_centre);
}

#[test]
fn lens_takes_the_first_point_inside_the_disc() {
    let camera = Camera::from_tangents(
        s(2.0),
        4,
        1,
        1,
        s(90.0),
        s(10.0),
        s(2.0),
        v(0.0, 0.0, 0.0),
        v(0.0, 0.0, -1.0),
        v(0.0, 1.0, 0.0),
        s(1.0),
        s(0.25),
    )
    .unwrap();
    let candidates = vec![
        LensPoint { x: s(0.9), y: s(0.9) },
        LensPoint { x: s(0.5), y: s(-0.25) },
        LensPoint { x: s(0.0), y: s(0.0) },
    ];
    assert_eq!(parts(camera.lens_from_candidates(&candidates)), (0.25, -0.125, 0.0));
    let outside = vec![LensPoint { x: s(0.9), y: s(0.9) }, LensPoint { x: s(1.0), y: s(0.0) }];
    assert_eq!(parts(camera.lens_from_candidates(&outside)), (0.0, 0.0, 0.0));
    let none: Vec<LensPoint> = Vec::new();
    assert_eq!(parts(camera.lens_from_candidates(&none)), (0.0, 0.0, 0.0));
}

#[test]
fn depth_zero_is_black() {
    let world = one_sphere();
    let empty: World = Vec::new();
    let rays = [
        Ray::construct(v(0.0, 0.0, 0.0), v(0.0, 0.0, -1.0), s(0.0)),
        Ray::construct(v(0.0, 0.0, 0.0), v(0.0, 1.0, 0.0), s(0.0)),
        Ray::construct(v(5.0, -3.0, 2.0), v(0.3, 0.2, 0.1), s(1.0)),
        Ray::new(),
    ];
    for r in rays.iter() {
        assert_eq!(parts(ray_colour(r, &world, 0)), (0.0, 0.0, 0.0));
        assert_eq!(parts(ray_colour(r, &empty, 0)), (0.0, 0.0, 0.0));
    }
}

#[test]
fn sky_is_a_gradient() {
    let up = Ray::construct(v(0.0, 0.0, 0.0), v(0.0, 2.0, 0.0), s(0.0));
    assert_eq!(parts(sky(&up)), (0.5, 0.7, 1.0));
    let down = Ray::construct(v(0.0, 0.0, 0.0), v(0.0, -3.0, 0.0), s(0.0));
    assert_eq!(parts(sky(&down)), (1.0, 1.0, 1.0));
    let level = Ray::construct(v(0.0, 0.0, 0.0), v(1.0, 0.0, 0.0), s(0.0));
    assert_eq!(parts(sky(&level)), (0.75, 0.85, 1.0));
}

#[test]
fn missing_ray_gets_the_sky() {
    let world = one_sphere();
    let r = Ray::construct(v(0.0, 0.0, 0.0), v(1.5, 0.5, -1.0), s(0.0));
    let c = ray_colour(&r, &world, 5);
    assert!(close(c, sky_of((1.5, 0.5, -1.0))));
    assert_eq!(parts(c), parts(sky(&r)));
}

#[test]
fn hit_at_depth_one_is_black() {
    let world = one_sphere();
    let r = Ray::construct(v(0.0, 0.0, 0.0), v(0.0, 0.0, -1.0), s(0.0));
    assert!(world.hit(&r, s(0.001)..s(f32::INFINITY)).is_some());
    assert_eq!(parts(ray_colour(&r, &world, 1)), (0.0, 0.0, 0.0));
}

#[test]
fn hit_at_depth_two_is_attenuated_sky() {
    let world = one_sphere();
    let r = Ray::construct(v(0.0, 0.0, 0.0), v(0.0, 0.0, -1.0), s(0.0));
    for _ in 0..50 {
        let (x, y, z) = parts(ray_colour(&r, &world, 2));
        assert!(0.25 - 1e-5 <= x && x <= 0.5 + 1e-5);
        assert!(0.35 - 1e-5 <= y && y <= 0.5 + 1e-5);
        assert!((z - 0.5).abs() < 1e-5);
    }
}

#[test]
fn end_to_end_centre_and_corner() {
    let world = one_sphere();
    let camera = simple_camera(5, 1, 1);
    assert_eq!(camera.image_height, 2);
    let centre = camera.ray_through(2, 0, camera.delta_v.mul(s(0.5)), Vec3::new());
    assert!(close(centre.direction, (0.0, 0.0, -1.0)));
    assert!(world.hit(&centre, s(0.001)..s(f32::INFINITY)).is_some());
    let colour = ray_colour(&centre, &world, camera.max_depth);
    assert_eq!(parts(colour), (0.0, 0.0, 0.0));
    assert!(parts(colour) != parts(sky(&centre)));
    for _ in 0..50 {
        let corner = camera.get_ray(0, 0);
        assert!(world.hit(&corner, s(0.001)..s(f32::INFINITY)).is_none());
        let c = ray_colour(&corner, &world, camera.max_depth);
        assert!(close(c, sky_of(parts(corner.direction))));
        assert_eq!(parts(c), parts(sky(&corner)));
    }
}

#[test]
fn list_of_spheres_renders_as_the_scene() {
    let grey = Arc::new(Surface::Lambertian(Lambertian::new(v(0.5, 0.5, 0.5))));
    let spheres = vec![Sphere::stationary_from_dim(v(0.0, 0.0, -1.0), s(0.5), grey)];
    let camera = simple_camera(6, 2, 1);
    let image = camera.render(&spheres);
    assert_eq!(image.len(), 18);
    assert_eq!(image[8], Pixel { r: 0, g: 0, b: 0 });
    assert_eq!(image[0].b, 255);
}

#[test]
fn sum_adds_from_black() {
    let none: Vec<Vec3> = Vec::new();
    assert_eq!(parts(sum(&none)), (0.0, 0.0, 0.0));
    let colours = vec![v(0.25, 0.5, 1.0), v(0.75, 0.5, 0.0), v(0.5, 0.5, 0.5), v(0.5, 1.5, 2.5)];
    assert_eq!(parts(sum(&colours)), (2.0, 3.0, 4.0));
}

#[test]
fn mean_is_the_arithmetic_mean() {
    let colours = vec![v(0.25, 0.5, 1.0), v(0.75, 0.5, 0.0), v(0.5, 0.5, 0.5), v(0.5, 1.5, 2.5)];
    assert_eq!(parts(mean(&colours)), (0.5, 0.75, 1.0));
    for c in colours.iter() {
        assert_eq!(parts(mean(&vec![*c])), parts(*c));
    }
    let singles: Vec<Vec3> = colours.iter().map(|c| mean(&vec![*c])).collect();
    assert_eq!(parts(mean(&singles)), parts(mean(&colours)));
}

#[test]
fn samples_average_to_the_pixel() {
    let world = one_sphere();
    let camera = simple_camera(6, 8, 1);
    assert_eq!(camera.image_height, 3);
    for _ in 0..20 {
        assert_eq!(parts(camera.sample(&world, 2, 1)), (0.0, 0.0, 0.0));
        assert_eq!(parts(camera.render_pixel(&world, 2, 1)), (0.0, 0.0, 0.0));
    }
    let (x, y, z) = parts(camera.render_pixel(&world, 0, 0));
    assert!(0.5 < x && x < 1.0 && 0.7 < y && y < 1.0 && (z - 1.0).abs() < 1e-5);
}

#[test]
fn clamp_holds_to_the_unit_interval() {
    assert_eq!(f(clamp(s(-0.5))), 0.0);
    assert_eq!(f(clamp(s(0.25))), 0.25);
    assert_eq!(f(clamp(s(1.0))), 1.0);
    assert_eq!(f(clamp(s(7.0))), 1.0);
    assert!(clamp(s(f32::NAN)).is_nan());
}

#[test]
fn channel_is_the_gamma_corrected_byte() {
    assert_eq!(channel(s(0.0)), 0);
    assert_eq!(channel(s(0.25)), 128);
    assert_eq!(channel(s(0.5)), (256.0 * 0.5f32.sqrt()) as u8);
    assert_eq!(channel(s(0.5)), 181);
    assert_eq!(channel(s(0.0625)), 64);
    assert_eq!(channel(s(0.999)), 255);
    assert_eq!(channel(s(1.0)), 255);
    assert_eq!(channel(s(2.5)), 255);
    assert_eq!(channel(s(f32::INFINITY)), 255);
    assert_eq!(channel(s(-0.25)), 0);
    assert_eq!(channel(s(f32::NAN)), 0);
}

#[test]
fn pixel_converts_each_channel() {
    assert_eq!(pixel(v(0.25, 1.5, -1.0)), Pixel { r: 128, g: 255, b: 0 });
    assert_eq!(pixel(v(0.0625, 0.5, 0.999)), Pixel { r: 64, g: 181, b: 255 });
}

#[test]
fn render_is_row_major() {
    let world = one_sphere();
    let camera = simple_camera(6, 2, 1);
    assert_eq!(camera.image_height, 3);
    let image = camera.render(&world);
    assert_eq!(image.len(), 18);
    for j in 0..3usize {
        for i in 0..6usize {
            let p = image[j * 6 + i];
            if j == 1 && i == 2 {
                assert_eq!(p, Pixel { r: 0, g: 0, b: 0 });
            }
            if i == 0 || i == 5 {
                assert_eq!(p.b, 255);
                assert!(p.r >= 181 && p.g >= 214);
            }
        }
    }
    assert!(image[0].r <= image[12].r);
}

#[test]
fn decimal_writes_digits() {
    assert_eq!(decimal(0), b"0".to_vec());
    assert_eq!(decimal(7), b"7".to_vec());
    assert_eq!(decimal(10), b"10".to_vec());
    assert_eq!(decimal(255), b"255".to_vec());
    assert_eq!(decimal(1200), b"1200".to_vec());
    assert_eq!(decimal(4294967295), b"4294967295".to_vec());
}

#[test]
fn header_names_the_format_and_size() {
    assert_eq!(header(1200, 675), with_magic("1200 675\n255\n"));
    assert_eq!(header(3, 2), with_magic("3 2\n255\n"));
}

#[test]
fn line_holds_three_channels() {
    assert_eq!(pixel_line(Pixel { r: 0, g: 128, b: 255 }), b"0 128 255\n".to_vec());
    assert_eq!(pixel_line(Pixel { r: 17, g: 4, b: 100 }), b"17 4 100\n".to_vec());
}

#[test]
fn text_is_header_then_lines() {
    let image = vec![
        Pixel { r: 1, g: 2, b: 3 },
        Pixel { r: 40, g: 50, b: 60 },
        Pixel { r: 255, g: 0, b: 128 },
        Pixel { r: 9, g: 99, b: 199 },
    ];
    assert_eq!(
        text(2, 2, &image),
        with_magic("2 2\n255\n1 2 3\n40 50 60\n255 0 128\n9 99 199\n")
    );
    let none: Vec<Pixel> = Vec::new();
    assert_eq!(text(0, 0, &none), with_magic("0 0\n255\n"));
}

#[test]
fn rendered_image_as_text() {
    let world = one_sphere();
    let camera = simple_camera(4, 1, 1);
    let image = camera.render(&world);
    let out = text(camera.image_width, camera.image_height, &image);
    let shown = String::from_utf8(out).unwrap();
    let lines: Vec<&str> = shown.lines().collect();
    assert_eq!(lines.len(), 3 + 8);
    assert_eq!(lines[0].as_bytes(), &[b'P', b'3']);
    assert_eq!(lines[1], "4 2");
    assert_eq!(lines[2], "255");
    for l in lines[3..].iter() {
        let numbers: Vec<u32> = l.split(' ').map(|n| n.parse().unwrap()).collect();
        assert_eq!(numbers.len(), 3);
        assert!(numbers.iter().all(|n| *n <= 255));
    }
}
