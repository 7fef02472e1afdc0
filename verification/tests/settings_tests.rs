use waifu2x_batch::digits::parse_u32;
use waifu2x_batch::digits::render_i32;
use waifu2x_batch::launch::LaunchSpec;
use waifu2x_batch::settings::denoise_level_of_label;
use waifu2x_batch::settings::preview_list;
use waifu2x_batch::settings::scale_level_of_label;
use waifu2x_batch::settings::Format;
use waifu2x_batch::settings::Waifu2xState;
use waifu2x_batch::text::find_first;
use waifu2x_batch::text::replace_all;

#[test]
fn default_state_mirrors_the_fresh_form() {
    let st = Waifu2xState::default();
    assert!(st.selected_files.is_empty());
    assert!(st.output_dir.is_empty());
    assert_eq!(st.scale_level, 1);
    assert_eq!(st.denoise_level, -1);
    assert!(!st.tta_mode);
    assert_eq!(st.format, Format::Png);
    assert!(st.thread_count.is_empty());
    assert!(st.gpu_id.is_empty());
    assert!(st.model_path.is_empty());
    assert_eq!(st.filename_format, b"{name}_{scale}x_{denoise}n".to_vec());
}

#[test]
fn setters_change_only_their_field() {
    let mut st = Waifu2xState::default();
    st.set_denoise_level(3);
    st.set_scale_level(16);
    assert_eq!(st.denoise_level, 3);
    assert_eq!(st.scale_level, 16);
    assert_eq!(st.format, Format::Png);
}

#[test]
fn denoise_labels_decode() {
    assert_eq!(denoise_level_of_label(&b"None".to_vec()), -1);
    assert_eq!(denoise_level_of_label(&b"Level 0".to_vec()), 0);
    assert_eq!(denoise_level_of_label(&b"Level 3".to_vec()), 3);
}

#[test]
fn scale_labels_decode() {
    assert_eq!(scale_level_of_label(&b"1x".to_vec()), Some(1));
    assert_eq!(scale_level_of_label(&b"32x".to_vec()), Some(32));
    assert_eq!(scale_level_of_label(&b"auto".to_vec()), None);
    assert_eq!(scale_level_of_label(&b"x".to_vec()), None);
    assert_eq!(scale_level_of_label(&b"99999999999x".to_vec()), None);
}

#[test]
fn scale_labels_may_carry_a_sign() {
    assert_eq!(scale_level_of_label(&b"-2x".to_vec()), Some(-2));
    assert_eq!(scale_level_of_label(&b"+3x".to_vec()), Some(3));
    assert_eq!(scale_level_of_label(&b"-2147483648x".to_vec()), Some(i32::MIN));
    assert_eq!(scale_level_of_label(&b"2147483647x".to_vec()), Some(i32::MAX));
    assert_eq!(scale_level_of_label(&b"2147483648x".to_vec()), None);
    assert_eq!(scale_level_of_label(&b"-2147483649x".to_vec()), None);
    assert_eq!(scale_level_of_label(&b"-x".to_vec()), None);
    assert_eq!(scale_level_of_label(&b"+-2x".to_vec()), None);
}

#[test]
fn format_labels_decode() {
    assert_eq!(Format::from_label(&b"PNG".to_vec()), Some(Format::Png));
    assert_eq!(Format::from_label(&b"JPG".to_vec()), Some(Format::Jpg));
    assert_eq!(Format::from_label(&b"WebP".to_vec()), Some(Format::Webp));
    assert_eq!(Format::from_label(&b"GIF".to_vec()), None);
}

#[test]
fn decimal_rendering_is_exact() {
    assert_eq!(render_i32(0), b"0".to_vec());
    assert_eq!(render_i32(12), b"12".to_vec());
    assert_eq!(render_i32(-1), b"-1".to_vec());
    assert_eq!(render_i32(2147483647), b"2147483647".to_vec());
    assert_eq!(render_i32(-2147483648), b"-2147483648".to_vec());
}

#[test]
fn decimal_parsing_round_trips() {
    assert_eq!(parse_u32(&b"0".to_vec()), Some(0));
    assert_eq!(parse_u32(&b"4294967295".to_vec()), Some(4294967295));
    assert_eq!(parse_u32(&b"4294967296".to_vec()), None);
    assert_eq!(parse_u32(&b"".to_vec()), None);
    assert_eq!(parse_u32(&b"12a".to_vec()), None);
}

#[test]
fn preview_joins_at_most_ten_paths() {
    let two = vec![b"a.png".to_vec(), b"b.png".to_vec()];
    assert_eq!(preview_list(&two), b"a.png;b.png".to_vec());
    let mut many = Vec::new();
    for _ in 0..12 {
        many.push(b"p".to_vec());
    }
    assert_eq!(preview_list(&many), b"p;p;p;p;p;p;p;p;p;p".to_vec());
    let none: Vec<Vec<u8>> = Vec::new();
    assert_eq!(preview_list(&none), b"".to_vec());
}

#[test]
fn replace_all_walks_left_to_right() {
    let out = replace_all(&b"ababa".to_vec(), &b"aba".to_vec(), &b"c".to_vec());
    assert_eq!(out, b"cba".to_vec());
    let out = replace_all(&b"xx".to_vec(), &b"x".to_vec(), &b"yy".to_vec());
    assert_eq!(out, b"yyyy".to_vec());
}

#[test]
fn find_first_is_leftmost() {
    assert_eq!(find_first(&b"ababa".to_vec(), &b"ba".to_vec()), Some(1));
    assert_eq!(find_first(&b"ababa".to_vec(), &b"z".to_vec()), None);
    assert_eq!(find_first(&b"ab".to_vec(), &b"".to_vec()), Some(0));
}

fn plain_spec() -> LaunchSpec {
    LaunchSpec {
        input: b"in.png".to_vec(),
        output: b"out.png".to_vec(),
        scale_level: 2,
        denoise_level: -1,
        thread_count: Vec::new(),
        gpu_id: Vec::new(),
        model_path: Vec::new(),
    }
}

#[test]
fn args_hold_the_four_fixed_flags() {
    let args = plain_spec().args();
    let want: Vec<Vec<u8>> = vec![
        b"-i".to_vec(),
        b"in.png".to_vec(),
        b"-o".to_vec(),
        b"out.png".to_vec(),
        b"-s".to_vec(),
        b"2".to_vec(),
        b"-n".to_vec(),
        b"-1".to_vec(),
    ];
    assert_eq!(args, want);
}

#[test]
fn optional_flags_appear_only_when_set() {
    let mut sp = plain_spec();
    sp.thread_count = b"1:2:2".to_vec();
    sp.gpu_id = b"0".to_vec();
    sp.model_path = b"models-cunet".to_vec();
    let args = sp.args();
    assert_eq!(args.len(), 14);
    assert_eq!(args[8], b"-j".to_vec());
    assert_eq!(args[9], b"1:2:2".to_vec());
    assert_eq!(args[10], b"-g".to_vec());
    assert_eq!(args[11], b"0".to_vec());
    assert_eq!(args[12], b"-m".to_vec());
    assert_eq!(args[13], b"models-cunet".to_vec());
}
