use effigy_video_compressor::geometry::{
    display_dimensions, oriented_resolution_box, resolution_candidates, scaled_dimensions,
};

#[test]
fn rotation_metadata_changes_display_orientation() {
    assert_eq!(display_dimensions(1920, 1080, 90), (1080, 1920));
    assert_eq!(display_dimensions(1920, 1080, -90), (1080, 1920));
    assert_eq!(display_dimensions(1920, 1080, 180), (1920, 1080));
}

#[test]
fn rotation_repeats_every_half_turn() {
    assert_eq!(display_dimensions(1920, 1080, 270), (1080, 1920));
    assert_eq!(display_dimensions(1920, 1080, 0), (1920, 1080));
    assert_eq!(display_dimensions(1920, 1080, -180), (1920, 1080));
    assert_eq!(display_dimensions(1920, 1080, 45), (1920, 1080));
}

#[test]
fn portrait_sources_turn_the_box() {
    assert_eq!(oriented_resolution_box(2160, 3840, 1920, 1080), (1080, 1920));
    assert_eq!(oriented_resolution_box(3840, 2160, 1920, 1080), (1920, 1080));
    assert_eq!(oriented_resolution_box(1000, 1000, 1920, 1080), (1920, 1080));
}

#[test]
fn scaling_keeps_aspect_and_never_upscales() {
    assert_eq!(scaled_dimensions(2160, 3840, 1080, 1920), (1080, 1920));
    assert_eq!(scaled_dimensions(3840, 2160, 1280, 720), (1280, 720));
    assert_eq!(scaled_dimensions(1280, 720, 1920, 1080), (1280, 720));
    assert_eq!(scaled_dimensions(1920, 800, 1280, 720), (1280, 532));
}

#[test]
fn scaling_rounds_down_to_even_sizes_of_at_least_two() {
    assert_eq!(scaled_dimensions(1001, 601, 4000, 4000), (1000, 600));
    assert_eq!(scaled_dimensions(1, 1, 100, 100), (2, 2));
    assert_eq!(scaled_dimensions(0, 1080, 1920, 1080), (2, 1080));
}

#[test]
fn auto_resolution_lists_the_source_first_and_skips_duplicates() {
    let cs = resolution_candidates("auto", None, None, "auto", 1280, 720);
    let names: Vec<&str> = cs.iter().map(|c| c.name.as_str()).collect();
    assert_eq!(names, vec!["original", "540p"]);
    assert_eq!((cs[0].width, cs[0].height), (None, None));
    assert_eq!((cs[1].rendered_width, cs[1].rendered_height), (960, 540));
}

#[test]
fn auto_resolution_of_a_4k_source_offers_every_preset() {
    let cs = resolution_candidates("auto", None, None, "auto", 3840, 2160);
    let names: Vec<&str> = cs.iter().map(|c| c.name.as_str()).collect();
    assert_eq!(names, vec!["original", "1440p", "1080p", "720p", "540p"]);
    assert_eq!((cs[4].rendered_width, cs[4].rendered_height), (960, 540));
}

#[test]
fn manual_scale_of_a_portrait_source_uses_the_short_side() {
    let cs = resolution_candidates("scale", Some(1920), Some(1080), "1080p", 2160, 3840);
    assert_eq!(cs.len(), 1);
    assert_eq!((cs[0].width, cs[0].height), (Some(1080), Some(1920)));
    assert_eq!((cs[0].rendered_width, cs[0].rendered_height), (1080, 1920));
    assert_eq!(cs[0].name, "1080p");
}

#[test]
fn manual_scale_defaults_to_1080p() {
    let cs = resolution_candidates("scale", None, None, "custom", 3840, 2160);
    assert_eq!((cs[0].width, cs[0].height), (Some(1920), Some(1080)));
}

#[test]
fn original_resolution_keeps_the_source() {
    let cs = resolution_candidates("original", None, None, "original", 1000, 500);
    assert_eq!(cs.len(), 1);
    assert_eq!((cs[0].width, cs[0].height), (None, None));
    assert_eq!((cs[0].rendered_width, cs[0].rendered_height), (1000, 500));
}
