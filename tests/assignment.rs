use wl_bg_gallery::config::FitType;
use wl_bg_gallery::image_file::{
    assign_best_fit, assign_everything_everyone, assign_next_file, get_image_fit, plan_rotations,
    test_best_fit, test_next_file, ImageFile, PlanningError,
};
use wl_bg_gallery::output::Output;
use wl_bg_gallery::priority::Priority;

fn image(width: u32, height: u32, name: &str) -> ImageFile {
    ImageFile::new(width, height, name.to_string())
}

fn screen(width: u32, height: u32) -> Output {
    let mut o = Output::new();
    o.mode_width = width;
    o.mode_height = height;
    o
}

fn screens(n: usize) -> Vec<Output> {
    (0..n).map(|i| {
        let mut o = screen(1920, 1080);
        o.id = i as u32;
        o
    }).collect()
}

#[test]
fn fit_classes_follow_sides_and_areas() {
    let o = screen(1920, 1080);
    assert!(matches!(get_image_fit(&image(1920, 500, "a"), &o), Priority::BestFit));
    assert!(matches!(get_image_fit(&image(100, 1080, "a"), &o), Priority::BestFit));
    match get_image_fit(&image(960, 540, "a"), &o) {
        Priority::Downsize { num, den } => {
            assert_eq!(num, 960 * 540);
            assert_eq!(den, 1920 * 1080);
        }
        _ => panic!("expected a downsize"),
    }
    match get_image_fit(&image(3840, 2160, "a"), &o) {
        Priority::Upsize { num, den } => {
            assert_eq!(num, 3840 * 2160);
            assert_eq!(den, 1920 * 1080);
        }
        _ => panic!("expected an upsize"),
    }
    // same area, no matching side
    assert!(matches!(get_image_fit(&image(1080, 1920, "a"), &o), Priority::Any));
    // an output without a mode yet
    assert!(matches!(get_image_fit(&image(640, 480, "a"), &Output::new()), Priority::Any));
}

#[test]
fn broadcast_gives_every_output_the_whole_corpus() {
    let imgs = vec![image(1, 1, "a"), image(2, 2, "b"), image(3, 3, "c")];
    let mut outs = screens(2);
    outs[1].cursor = 0;
    assign_everything_everyone(&imgs, &mut outs);
    for o in &outs {
        assert_eq!(o.image_list, vec![0, 1, 2]);
        assert_eq!(o.cursor, 0);
    }
}

#[test]
fn round_robin_deals_images_in_turn() {
    let imgs: Vec<ImageFile> = (0..7).map(|i| image(100 + i, 100, "x")).collect();
    let mut outs = screens(3);
    assign_next_file(&imgs, &mut outs);
    assert_eq!(outs[0].image_list, vec![0, 3, 6]);
    assert_eq!(outs[1].image_list, vec![1, 4]);
    assert_eq!(outs[2].image_list, vec![2, 5]);
}

#[test]
fn round_robin_counts_differ_by_at_most_one() {
    for n in 1..20usize {
        for m in 1..6usize {
            let imgs: Vec<ImageFile> = (0..n).map(|_| image(10, 10, "x")).collect();
            let mut outs = screens(m);
            assign_next_file(&imgs, &mut outs);
            let counts: Vec<usize> = outs.iter().map(|o| o.image_list.len()).collect();
            let max = *counts.iter().max().unwrap();
            let min = *counts.iter().min().unwrap();
            assert!(min > 0, "n={} m={}", n, m);
            assert!(max - min <= 1, "n={} m={}", n, m);
        }
    }
}

#[test]
fn round_robin_with_fewer_images_than_outputs_broadcasts() {
    let imgs = vec![image(1, 1, "a")];
    let mut outs = screens(3);
    assign_next_file(&imgs, &mut outs);
    for o in &outs {
        assert_eq!(o.image_list, vec![0]);
    }
}

#[test]
fn scenario_a_best_fit_assignment() {
    let imgs = vec![image(1920, 1080, "imgA"), image(3840, 2160, "imgB")];
    let mut outs = vec![screen(1920, 1080), screen(3440, 1440)];
    outs[1].id = 1;
    assert!(matches!(get_image_fit(&imgs[0], &outs[0]), Priority::BestFit));
    match get_image_fit(&imgs[1], &outs[1]) {
        Priority::Upsize { num, den } => {
            assert_eq!(num, 3840 * 2160);
            assert_eq!(den, 3440 * 1440);
        }
        _ => panic!("expected an upsize"),
    }
    assign_best_fit(&imgs, &mut outs);
    // imgA fits O1 exactly; imgB magnifies less on O2 (1.67) than on O1 (4)
    assert_eq!(outs[0].image_list, vec![0]);
    assert_eq!(outs[1].image_list, vec![1]);
}

#[test]
fn scenario_a_through_the_two_output_helper() {
    let imgs = vec![image(1920, 1080, "imgA"), image(3840, 2160, "imgB")];
    let outs = test_best_fit(&imgs);
    assert_eq!(outs[0].image_list, vec![0]);
    assert_eq!(outs[1].image_list, vec![1]);
}

#[test]
fn least_magnification_ranks_first() {
    let small = screen(1280, 720);
    let large = screen(2560, 1600);
    let a = get_image_fit(&image(5120, 2880, "a"), &small);
    let b = get_image_fit(&image(5120, 2880, "a"), &large);
    assert_eq!(b.cmp(&a), std::cmp::Ordering::Less);
}

#[test]
fn best_fit_pairs_each_image_with_its_best_output() {
    let imgs = vec![
        image(3440, 1000, "wide"),
        image(1920, 1080, "hd"),
        image(800, 600, "small"),
        image(3440, 1440, "uw"),
    ];
    let mut outs = vec![screen(1920, 1080), screen(3440, 1440)];
    outs[1].id = 1;
    assign_best_fit(&imgs, &mut outs);
    // "small" is a downsize on both; the smaller factor is on the larger output
    assert_eq!(outs[0].image_list, vec![1]);
    assert_eq!(outs[1].image_list, vec![0, 3, 2]);
}

#[test]
fn best_fit_ties_go_to_the_earlier_image_and_output() {
    let imgs = vec![image(1920, 1080, "a"), image(1920, 1080, "b")];
    let mut outs = vec![screen(1920, 1080), screen(1920, 1080)];
    outs[1].id = 1;
    assign_best_fit(&imgs, &mut outs);
    assert_eq!(outs[0].image_list, vec![0, 1]);
    assert_eq!(outs[1].image_list, vec![0, 1]);
}

#[test]
fn planning_an_empty_corpus_fails() {
    let imgs: Vec<ImageFile> = Vec::new();
    let mut outs = screens(2);
    assert_eq!(plan_rotations(&imgs, &mut outs, FitType::BestFit), Err(PlanningError::EmptyCorpus));
    assert_eq!(plan_rotations(&imgs, &mut outs, FitType::NextFile), Err(PlanningError::EmptyCorpus));
    assert!(outs.iter().all(|o| o.image_list.is_empty()));
}

#[test]
fn planning_gives_every_output_a_rotation() {
    let imgs = vec![image(640, 480, "a"), image(1920, 1200, "b"), image(5000, 5000, "c")];
    for fit in [FitType::BestFit, FitType::NextFile] {
        let mut outs = screens(3);
        assert_eq!(plan_rotations(&imgs, &mut outs, fit), Ok(()));
        assert!(outs.iter().all(|o| !o.image_list.is_empty() && o.cursor == 0));
    }
}

#[test]
fn planning_with_no_outputs_does_nothing() {
    let imgs = vec![image(640, 480, "a")];
    let mut outs: Vec<Output> = Vec::new();
    assert_eq!(plan_rotations(&imgs, &mut outs, FitType::BestFit), Ok(()));
    assert!(outs.is_empty());
}

#[test]
fn next_file_over_portrait_and_landscape() {
    let imgs = vec![image(1, 1, "a"), image(2, 2, "b"), image(3, 3, "c")];
    let outs = test_next_file(&imgs);
    assert_eq!((outs[0].mode_width, outs[0].mode_height), (1080, 1920));
    assert_eq!(outs[0].image_list, vec![0, 2]);
    assert_eq!(outs[1].image_list, vec![1]);
}

#[test]
fn best_fit_over_hd_and_ultrawide() {
    let imgs = vec![image(3440, 1440, "uw"), image(1920, 1080, "hd")];
    let outs = test_best_fit(&imgs);
    assert_eq!(outs[0].image_list, vec![1]);
    assert_eq!(outs[1].image_list, vec![0]);
}
