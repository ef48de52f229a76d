use actweave::json::Json;
use actweave::recognition::{Detection, Frame, Real, Rect};
use actweave::vision::{
    check_ocr, convert, crop, max_results, overlaps, report, search, OcrParameters, Template,
    Templates,
};

fn double(x: f64) -> Real {
    Real { bits: x.to_bits() }
}

/// The score of an error, and the largest error that still reaches a threshold.
fn score(error: u128, samples: usize) -> f64 {
    1.0 - error as f64 / (samples as f64 * 3.0 * 255.0)
}

fn limit(threshold: f64, samples: usize) -> u128 {
    let mut limit = samples as u128 * 765;
    while score(limit, samples) < threshold {
        limit -= 1;
    }
    limit
}

fn icon() -> Template {
    let mut rgba = vec![255, 0, 0, 255];
    rgba.extend([0, 255, 0, 255]);
    rgba.extend([0, 0, 255, 255]);
    rgba.extend([255, 255, 255, 0]);
    Template::new(2, 2, rgba).unwrap()
}

#[test]
fn template_finds_two_icons_in_roi_and_preserves_client_coordinates() {
    let mut templates = Templates::new();
    templates.insert("icon", icon()).unwrap();
    let mut rgb = vec![0u8; 12 * 6 * 3];
    for x in [3, 8] {
        for (dx, dy, color) in
            [(0, 0, [255, 0, 0]), (1, 0, [0, 255, 0]), (0, 1, [0, 0, 255])]
        {
            let start = ((2 + dy) * 12 + x + dx) * 3;
            rgb[start..start + 3].copy_from_slice(&color);
        }
    }
    let frame = Frame::new(12, 6, rgb).unwrap();
    let roi = Rect { x: 2, y: 1, width: 9, height: 4 };
    let template = templates.prepare(&frame, roi, "icon", double(1.0), 2).unwrap();
    let samples = template.samples();
    assert_eq!(samples, 3);
    let hits = search(template, &frame, roi, limit(1.0, samples), 2);
    let scores = hits.iter().map(|hit| double(score(hit.error, samples))).collect();
    let result = report(&hits, &scores, "icon");
    assert_eq!(result.matches.len(), 2);
    assert_eq!(result.matches[0].bounds.unwrap().x, 3);
    assert_eq!(result.matches[1].bounds.unwrap().x, 8);
    assert_eq!(result.matches[0].score, Some(double(1.0)));
    assert_eq!(result.matches[0].label.as_deref(), Some("icon"));
}

#[test]
fn missing_template_is_an_error_but_larger_template_is_a_nonmatch() {
    let mut templates = Templates::new();
    let red = Template::new(3, 3, [255, 0, 0, 255].repeat(9)).unwrap();
    templates.insert("large", red).unwrap();
    let frame = Frame::new(1, 1, vec![0, 0, 0]).unwrap();
    let roi = Rect { x: 0, y: 0, width: 1, height: 1 };
    assert_eq!(
        templates.prepare(&frame, roi, "missing", double(0.9), max_results()).unwrap_err().message(),
        "unsupported capability: template missing not loaded"
    );
    let large = templates.prepare(&frame, roi, "large", double(0.9), max_results()).unwrap();
    assert!(search(large, &frame, roi, limit(0.9, 9), max_results()).is_empty());
    for (threshold, max) in [(1.1, 1), (f64::NAN, 1), (0.5, 0), (0.5, 101)] {
        assert!(templates.prepare(&frame, roi, "large", double(threshold), max).is_err());
    }
    let outside = Rect { x: 0, y: 0, width: 2, height: 1 };
    assert!(templates.prepare(&frame, outside, "large", double(0.5), 1).is_err());
}

#[test]
fn the_better_of_two_that_overlap_stays_and_the_best_come_first() {
    let white = Template::new(1, 2, [255; 8].to_vec()).unwrap();
    let mut rgb = vec![0u8; 3 * 4 * 3];
    let mut set = |x: usize, y: usize, v: u8| {
        let at = (y * 3 + x) * 3;
        rgb[at..at + 3].copy_from_slice(&[v; 3]);
    };
    set(0, 0, 250);
    set(0, 1, 255);
    set(0, 2, 255);
    set(2, 2, 254);
    set(2, 3, 255);
    let frame = Frame::new(3, 4, rgb).unwrap();
    let roi = Rect { x: 0, y: 0, width: 3, height: 4 };
    let hits = search(&white, &frame, roi, 100, 5);
    let found: Vec<(i32, i32, u128)> =
        hits.iter().map(|h| (h.bounds.x, h.bounds.y, h.error)).collect();
    assert_eq!(found, vec![(0, 1, 0), (2, 2, 3)]);
    let best = search(&white, &frame, roi, 100, 1);
    assert_eq!(best.len(), 1);
    assert_eq!((best[0].bounds.x, best[0].bounds.y), (0, 1));
}

#[test]
fn rectangles_overlap_only_if_they_share_a_pixel() {
    let a = Rect { x: 0, y: 0, width: 2, height: 2 };
    assert!(overlaps(a, Rect { x: 1, y: 1, width: 2, height: 2 }));
    assert!(!overlaps(a, Rect { x: 2, y: 0, width: 2, height: 2 }));
    assert!(!overlaps(a, Rect { x: 0, y: -2, width: 2, height: 2 }));
    let far = Rect { x: i32::MAX, y: 0, width: u32::MAX, height: 1 };
    assert!(overlaps(far, far));
}

#[test]
fn templates_need_a_size_a_mask_and_a_name() {
    assert!(Template::new(0, 1, vec![]).is_err());
    assert!(Template::new(1, 1, vec![1, 2, 3]).is_err());
    assert!(Template::new(1, 1, vec![1, 2, 3, 127]).is_err());
    assert!(Template::new(1, 1, vec![1, 2, 3, 128]).is_ok());
    let mut templates = Templates::new();
    assert!(templates.insert("", icon()).is_err());
    templates.insert("icon", icon()).unwrap();
    assert!(templates.insert("icon", icon()).is_err());
}

#[test]
fn a_crop_holds_the_rows_of_its_region() {
    let rgb: Vec<u8> = (0..36).collect();
    let frame = Frame::new(4, 3, rgb).unwrap();
    let roi = Rect { x: 1, y: 1, width: 2, height: 2 };
    assert_eq!(crop(&frame, roi), vec![15, 16, 17, 18, 19, 20, 27, 28, 29, 30, 31, 32]);
}

fn detection(text: &str) -> Detection {
    Detection {
        bounds: Some(Rect { x: 2, y: 3, width: 20, height: 10 }),
        score: Some(double(0.95)),
        text: Some(text.to_owned()),
        label: None,
        detail: Json::Null,
    }
}

#[test]
fn converts_crop_coordinates_and_filters_text() {
    let roi = Rect { x: 100, y: 200, width: 80, height: 40 };
    let p = OcrParameters { min_confidence: double(0.8), contains: Some("继续".to_owned()) };
    let found = vec![detection("继续"), detection("返回")];
    let result = convert(&found, roi, &p).unwrap();
    assert_eq!(result.matches.len(), 1);
    let bounds = result.matches[0].bounds.unwrap();
    assert_eq!((bounds.x, bounds.y), (102, 203));
    let mut invalid = detection("继续");
    invalid.score = Some(double(f64::NAN));
    assert!(convert(&vec![invalid], roi, &p).is_err());
}

#[test]
fn texts_count_only_if_they_are_confident_and_not_blank() {
    let roi = Rect { x: 0, y: 0, width: 80, height: 40 };
    let all = OcrParameters { min_confidence: double(0.0), contains: None };
    let mut shy = detection("shy");
    shy.score = Some(double(0.5));
    let found = vec![detection(" \u{3000}\n"), shy, detection(" a b ")];
    let texts = |p: &OcrParameters| -> Vec<String> {
        convert(&found, roi, p).unwrap().matches.into_iter().map(|d| d.text.unwrap()).collect()
    };
    assert_eq!(texts(&all), vec!["shy", " a b "]);
    let sure = OcrParameters { min_confidence: double(0.95), contains: None };
    assert_eq!(texts(&sure), vec![" a b "]);
    for bound in [-0.0, -0.7, -2.0, f64::NEG_INFINITY, f64::NAN, -f64::NAN] {
        let lax = OcrParameters { min_confidence: double(bound), contains: None };
        assert_eq!(texts(&lax), vec!["shy", " a b "]);
        assert_eq!(check_ocr(&lax, 1).is_ok(), bound == 0.0);
    }
    for bound in [1.5, f64::INFINITY] {
        let strict = OcrParameters { min_confidence: double(bound), contains: None };
        assert!(texts(&strict).is_empty());
    }
    let trimmed = OcrParameters { min_confidence: double(0.0), contains: Some(" b ".to_owned()) };
    assert!(texts(&trimmed).is_empty());
    let part = OcrParameters { min_confidence: double(0.0), contains: Some("a b".to_owned()) };
    assert_eq!(texts(&part), vec![" a b "]);
    for rect in [
        Rect { x: -1, y: 0, width: 1, height: 1 },
        Rect { x: 0, y: 0, width: 0, height: 1 },
        Rect { x: 61, y: 0, width: 20, height: 1 },
    ] {
        let mut wild = detection("x");
        wild.bounds = Some(rect);
        assert_eq!(
            convert(&vec![wild], roi, &all).unwrap_err().message(),
            "backend failed: invalid OCR result geometry or confidence"
        );
    }
    let mut lost = detection("x");
    lost.bounds = None;
    assert_eq!(
        convert(&vec![lost], roi, &all).unwrap_err().message(),
        "backend failed: OCR result missing bounds"
    );
    assert!(check_ocr(&all, 0).is_err());
    assert!(check_ocr(&all, 1).is_ok());
}

#[test]
fn the_closest_place_comes_first_and_nothing_is_found_beyond_the_limit() {
    let white = Template::new(1, 1, vec![255; 4]).unwrap();
    let frame = Frame::new(3, 1, [[250; 3], [253; 3], [252; 3]].concat()).unwrap();
    let roi = Rect { x: 0, y: 0, width: 3, height: 1 };
    assert!(search(&white, &frame, roi, 5, 3).is_empty());
    let hits = search(&white, &frame, roi, 6, 3);
    assert_eq!(hits.iter().map(|h| (h.bounds.x, h.error)).collect::<Vec<_>>(), vec![(1, 6)]);
    for max in [1, 2, 3] {
        let hits = search(&white, &frame, roi, 765, max);
        assert_eq!((hits[0].bounds.x, hits[0].error), (1, 6));
        assert_eq!(hits.len(), max);
    }
}
