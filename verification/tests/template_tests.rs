use waifu2x_batch::launch::plan_launch;
use waifu2x_batch::launch::LaunchError;
use waifu2x_batch::pathname::file_stem;
use waifu2x_batch::pathname::force_extension;
use waifu2x_batch::pathname::join_path;
use waifu2x_batch::settings::Format;
use waifu2x_batch::settings::Waifu2xState;
use waifu2x_batch::template::derive_output_name;

fn state_with(files: Vec<Vec<u8>>, scale: i32, denoise: i32, template: &[u8]) -> Waifu2xState {
    let mut st = Waifu2xState::default();
    st.selected_files = files;
    st.scale_level = scale;
    st.denoise_level = denoise;
    st.filename_format = template.to_vec();
    st
}

#[test]
fn default_template_with_scale_2_denoise_1() {
    // Template "{name}_{scale}x_{denoise}n", scale=2, denoise=1, input
    // photo.png: the output stem is photo_2x_1n.
    let st = state_with(vec![b"photo.png".to_vec()], 2, 1, b"{name}_{scale}x_{denoise}n");
    let specs = plan_launch(&st).unwrap();
    assert_eq!(specs.len(), 1);
    assert_eq!(specs[0].input, b"photo.png".to_vec());
    assert_eq!(specs[0].output, b"photo_2x_1n.png".to_vec());
}

#[test]
fn output_lands_in_output_dir() {
    let mut st = state_with(vec![b"in/photo.png".to_vec()], 2, 1, b"{name}_{scale}x_{denoise}n");
    st.output_dir = b"out".to_vec();
    let specs = plan_launch(&st).unwrap();
    assert_eq!(specs[0].output, b"out/photo_2x_1n.png".to_vec());
}

#[test]
fn output_dir_with_trailing_separator_gets_no_second_one() {
    let mut st = state_with(vec![b"photo.png".to_vec()], 2, 1, b"{name}");
    st.output_dir = b"out/".to_vec();
    let specs = plan_launch(&st).unwrap();
    assert_eq!(specs[0].output, b"out/photo.png".to_vec());
}

#[test]
fn template_missing_name_aborts_batch() {
    // A template without {name} aborts the whole batch.
    let st = state_with(vec![b"photo.png".to_vec()], 2, 1, b"{scale}x");
    match plan_launch(&st) {
        Err(e) => assert_eq!(e, LaunchError::TemplateMissingName),
        Ok(_) => panic!("a template without {{name}} must abort the batch"),
    }
}

#[test]
fn invalid_input_path_aborts_batch() {
    let st = state_with(vec![b"ok.png".to_vec(), b"bad/".to_vec()], 2, 1, b"{name}");
    match plan_launch(&st) {
        Err(e) => assert_eq!(e, LaunchError::InvalidInputPath(1)),
        Ok(_) => panic!("a path without a file name must abort the batch"),
    }
}

#[test]
fn invalid_first_path_wins_over_bad_template() {
    // The files are scanned in order: a path with no usable name is
    // noticed before the template is looked at.
    let st = state_with(vec![b"..".to_vec()], 2, 1, b"no-token");
    match plan_launch(&st) {
        Err(e) => assert_eq!(e, LaunchError::InvalidInputPath(0)),
        Ok(_) => panic!("a path without a file name must abort the batch"),
    }
}

#[test]
fn empty_selection_plans_nothing() {
    let st = state_with(vec![], 2, 1, b"{name}");
    let specs = plan_launch(&st).unwrap();
    assert!(specs.is_empty());
}

#[test]
fn model_token_is_substituted() {
    let mut st = state_with(vec![b"photo.png".to_vec()], 2, 1, b"{name}-{model}");
    st.model_path = b"models-cunet".to_vec();
    let specs = plan_launch(&st).unwrap();
    assert_eq!(specs[0].output, b"photo-models-cunet.png".to_vec());
}

#[test]
fn negative_denoise_renders_with_minus() {
    let st = state_with(vec![b"photo.png".to_vec()], 1, -1, b"{name}_{denoise}");
    let specs = plan_launch(&st).unwrap();
    assert_eq!(specs[0].output, b"photo_-1.png".to_vec());
}

#[test]
fn format_picks_the_extension() {
    let mut st = state_with(vec![b"photo.png".to_vec()], 2, 1, b"{name}");
    st.format = Format::Webp;
    let specs = plan_launch(&st).unwrap();
    assert_eq!(specs[0].output, b"photo.webp".to_vec());
    st.format = Format::Jpg;
    let specs = plan_launch(&st).unwrap();
    assert_eq!(specs[0].output, b"photo.jpg".to_vec());
}

#[test]
fn only_first_name_token_is_substituted() {
    let st = state_with(vec![b"photo.png".to_vec()], 2, 1, b"{name}{name}");
    let specs = plan_launch(&st).unwrap();
    assert_eq!(specs[0].output, b"photo{name}.png".to_vec());
}

#[test]
fn forced_extension_cuts_a_dotted_template_tail() {
    // The extension replaces everything after the last dot of the
    // derived name, so a dot written into the template is treated as
    // starting an extension.
    let st = state_with(vec![b"photo.png".to_vec()], 2, 1, b"{name}.tmp");
    let specs = plan_launch(&st).unwrap();
    assert_eq!(specs[0].output, b"photo.png".to_vec());
}

#[test]
fn derive_output_name_substitutes_all_value_tokens() {
    let out = derive_output_name(
        &b"{name}_{scale}x_{denoise}n".to_vec(),
        2,
        1,
        &b"".to_vec(),
        &b"photo".to_vec(),
        &b"png".to_vec(),
    );
    assert_eq!(out, Some(b"photo_2x_1n.png".to_vec()));
}

#[test]
fn derive_output_name_rejects_template_without_name() {
    let out = derive_output_name(
        &b"{scale}x".to_vec(),
        2,
        1,
        &b"".to_vec(),
        &b"photo".to_vec(),
        &b"png".to_vec(),
    );
    assert_eq!(out, None);
}

#[test]
fn value_tokens_replace_every_occurrence() {
    let out = derive_output_name(
        &b"{scale}-{scale}-{name}".to_vec(),
        4,
        0,
        &b"".to_vec(),
        &b"p".to_vec(),
        &b"png".to_vec(),
    );
    assert_eq!(out, Some(b"4-4-p.png".to_vec()));
}

#[test]
fn file_stem_strips_one_extension() {
    assert_eq!(file_stem(&b"dir/photo.png".to_vec()), Some(b"photo".to_vec()));
    assert_eq!(file_stem(&b"a\\b.tar.gz".to_vec()), Some(b"b.tar".to_vec()));
    assert_eq!(file_stem(&b"noext".to_vec()), Some(b"noext".to_vec()));
    assert_eq!(file_stem(&b".hidden".to_vec()), Some(b".hidden".to_vec()));
}

#[test]
fn file_stem_rejects_unusable_paths() {
    assert_eq!(file_stem(&b"".to_vec()), None);
    assert_eq!(file_stem(&b"dir/".to_vec()), None);
    assert_eq!(file_stem(&b"dir/.".to_vec()), None);
    assert_eq!(file_stem(&b"dir/..".to_vec()), None);
}

#[test]
fn force_extension_replaces_after_last_dot() {
    assert_eq!(force_extension(&b"photo_2x".to_vec(), &b"png".to_vec()), b"photo_2x.png".to_vec());
    assert_eq!(force_extension(&b"a.tar_2x".to_vec(), &b"png".to_vec()), b"a.png".to_vec());
    assert_eq!(force_extension(&b".hidden".to_vec(), &b"jpg".to_vec()), b".hidden.jpg".to_vec());
}

#[test]
fn join_path_handles_empty_dir() {
    assert_eq!(join_path(&b"".to_vec(), &b"x.png".to_vec()), b"x.png".to_vec());
    assert_eq!(join_path(&b"d".to_vec(), &b"x.png".to_vec()), b"d/x.png".to_vec());
    assert_eq!(join_path(&b"d\\".to_vec(), &b"x.png".to_vec()), b"d\\x.png".to_vec());
}
