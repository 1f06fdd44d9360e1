use thumbmatch::bounds::Raster;
use thumbmatch::cache::Role;
use thumbmatch::hash::PerceptualHash;
use thumbmatch::hashing::compute_hash;
use thumbmatch::matcher::{best_match, match_all, nearest_index, needs_review, HashedFile, Match};

fn file(name: &str, bytes: &[u8]) -> HashedFile {
    HashedFile { name: name.to_string(), hash: PerceptualHash { bytes: bytes.to_vec() } }
}

#[test]
fn picks_nearest_candidate() {
    let thumbs = vec![file("a_thumb.png", &[0b0000_0001])];
    let fulls = vec![file("a.png", &[0b0000_0011]), file("b.png", &[0b1111_0000])];
    let r = match_all(&thumbs, &fulls);
    assert_eq!(r.len(), 1);
    assert_eq!(r[0].thumb, "a_thumb.png");
    assert_eq!(r[0].fullsize, "a.png");
    assert_eq!(r[0].distance, 1);
    assert!(!needs_review(&r[0]));
}

#[test]
fn tie_goes_to_earlier_candidate() {
    let t = file("t.png", &[0x00]);
    let fulls = vec![file("far.png", &[0xFF]), file("first.png", &[0x03]), file("second.png", &[0x30])];
    assert_eq!(nearest_index(&t.hash, &fulls), Some(1));
    let m = best_match(&t, &fulls).unwrap();
    assert_eq!(m.fullsize, "first.png");
    assert_eq!(m.distance, 2);
}

#[test]
fn no_candidates_no_matches() {
    let thumbs = vec![file("x.png", &[1]), file("y.png", &[2])];
    let fulls: Vec<HashedFile> = Vec::new();
    assert!(match_all(&thumbs, &fulls).is_empty());
    assert!(best_match(&thumbs[0], &fulls).is_none());
    assert_eq!(nearest_index(&thumbs[0].hash, &fulls), None);
}

#[test]
fn matching_is_reproducible() {
    let thumbs = vec![file("p.png", &[0x0F, 0x01]), file("q.png", &[0xF0, 0x80])];
    let fulls = vec![file("m.png", &[0x0E, 0x01]), file("n.png", &[0xF0, 0x00]), file("o.png", &[0x0F, 0x03])];
    let r1 = match_all(&thumbs, &fulls);
    let r2 = match_all(&thumbs, &fulls);
    assert_eq!(r1.len(), 2);
    for (x, y) in r1.iter().zip(r2.iter()) {
        assert_eq!(x.thumb, y.thumb);
        assert_eq!(x.fullsize, y.fullsize);
        assert_eq!(x.distance, y.distance);
    }
    assert_eq!(r1[0].fullsize, "m.png");
    assert_eq!(r1[1].fullsize, "n.png");
    assert_eq!(r1[1].distance, 1);
}

#[test]
fn far_match_is_flagged_but_kept() {
    let thumbs = vec![file("lonely.png", &[0x00, 0x00])];
    let fulls = vec![file("z.png", &[0xFF, 0x0F])];
    let r = match_all(&thumbs, &fulls);
    assert_eq!(r.len(), 1);
    assert_eq!(r[0].fullsize, "z.png");
    assert_eq!(r[0].distance, 12);
    assert!(needs_review(&r[0]));
}

#[test]
fn review_threshold_edges() {
    let at = Match { thumb: "t".to_string(), fullsize: "f".to_string(), distance: 10 };
    let above = Match { thumb: "t".to_string(), fullsize: "f".to_string(), distance: 11 };
    assert!(!needs_review(&at));
    assert!(needs_review(&above));
}

fn pattern(width: u32, height: u32, across: bool) -> Raster {
    let mut pixels = Vec::new();
    for y in 0..height {
        for x in 0..width {
            let v = if across { (x * 7) as u8 } else { (y * 7) as u8 };
            pixels.push(v);
            pixels.push(v);
            pixels.push(v);
        }
    }
    Raster { width, height, pixels }
}

#[test]
fn thumbnail_pairs_with_its_original() {
    let a = pattern(29, 26, true);
    let b = pattern(29, 26, false);
    let mut framed = Raster { width: 40, height: 40, pixels: vec![255; 3 * 40 * 40] };
    for y in 0..26u32 {
        for x in 0..29u32 {
            for c in 0..3u32 {
                framed.pixels[(3 * ((y + 6) * 40 + x + 5) + c) as usize] = a.pixels[(3 * (y * 29 + x) + c) as usize];
            }
        }
    }
    let fulls = vec![
        HashedFile { name: "a.png".to_string(), hash: compute_hash(&a, Role::Fullsize) },
        HashedFile { name: "b.png".to_string(), hash: compute_hash(&b, Role::Fullsize) },
    ];
    let thumbs = vec![HashedFile { name: "a_thumb.png".to_string(), hash: compute_hash(&framed, Role::Thumbnail) }];
    let to_a = thumbs[0].hash.distance(&fulls[0].hash);
    let to_b = thumbs[0].hash.distance(&fulls[1].hash);
    assert!(to_a < to_b);
    let r = match_all(&thumbs, &fulls);
    assert_eq!(r.len(), 1);
    assert_eq!(r[0].thumb, "a_thumb.png");
    assert_eq!(r[0].fullsize, "a.png");
    assert_eq!(r[0].distance, to_a);
}
