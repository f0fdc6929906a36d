use termsnow::color::Rgb;
use termsnow::palette::{bin_means, calc_centroid, distance2, get_clostest_color, kmeans, Cluster};

#[test]
fn distances() {
    let a = Rgb::new(0, 0, 0);
    let b = Rgb::new(3, 4, 12);
    assert_eq!(distance2(a, b), 9 + 16 + 144);
    assert_eq!(distance2(b, a), distance2(a, b));
    assert_eq!(distance2(b, b), 0);
    assert_eq!(distance2(Rgb::new(255, 255, 255), a), 3 * 255 * 255);
}

#[test]
fn closest_colors() {
    let palette = [Rgb::new(0, 0, 0), Rgb::new(255, 255, 255), Rgb::new(10, 10, 10)];
    assert_eq!(get_clostest_color(Rgb::new(20, 20, 20), &palette), Rgb::new(10, 10, 10));
    assert_eq!(get_clostest_color(Rgb::new(200, 200, 200), &palette), Rgb::new(255, 255, 255));
    // ties go to the first color
    let tie = [Rgb::new(0, 0, 0), Rgb::new(2, 0, 0)];
    assert_eq!(get_clostest_color(Rgb::new(1, 0, 0), &tie), Rgb::new(0, 0, 0));
    assert_eq!(get_clostest_color(Rgb::new(9, 9, 9), &[]), Rgb::new(9, 9, 9));
}

#[test]
fn clusters_and_centroids() {
    let mut c = Cluster::new();
    assert_eq!(c.to_centroid(), Rgb::new(0x88, 0x88, 0x88));
    c.add(Rgb::new(10, 20, 30));
    c.add(Rgb::new(20, 21, 31));
    assert_eq!(c.count, 2);
    assert_eq!(c.to_centroid(), Rgb::new(15, 20, 30));
    c.clear();
    assert_eq!(c, Cluster::new());
    assert_eq!(calc_centroid(&[Rgb::new(1, 2, 3), Rgb::new(3, 4, 6)]), Rgb::new(2, 3, 4));
    assert_eq!(calc_centroid(&[Rgb::new(7, 8, 9)]), Rgb::new(7, 8, 9));
}

#[test]
fn kmeans_results() {
    assert!(kmeans(0, &[Rgb::new(1, 1, 1)]).is_empty());
    let colors = [Rgb::new(0, 0, 0), Rgb::new(0, 0, 0), Rgb::new(250, 250, 250)];
    let one = kmeans(1, &colors);
    assert_eq!(one, vec![Rgb::new(83, 83, 83)]);
    // every color first joins the first gray centroid; the second round
    // splits dark from light
    let two = kmeans(2, &colors);
    assert_eq!(two, vec![Rgb::new(0, 0, 0), Rgb::new(250, 250, 250)]);
    assert_eq!(kmeans(3, &[]), vec![Rgb::new(0x88, 0x88, 0x88); 3]);
}

#[test]
fn bin_means_of_uniform_and_split_cells() {
    let red = Rgb::new(255, 0, 0);
    let m = bin_means(&[red; 6]);
    assert_eq!(m[0], red);
    assert_eq!(m[1], Rgb::new(0x88, 0x88, 0x88));
    let black = bin_means(&[Rgb::new(0, 0, 0); 6]);
    assert_eq!(black, [Rgb::new(0, 0, 0), Rgb::from_u32(0x888888)]);
    let none = bin_means(&[]);
    assert_eq!(none, [Rgb::new(0x88, 0x88, 0x88); 2]);
}
