use bevy::asset::Assets;
use bevy::shader::Shader;
use bevy_smud_demo::consts::{DEFAULT_SHAPE_BOUNDS_LENGTH_BITS, DEFAULT_SHAPE_SCALE_BITS};
use bevy_smud_demo::shader::ShaderRegistry;
use bevy_smud_demo::shape::{add_shape, clone_shape, compile_both, update_shape};
use bevy_smud_demo::state::{
    BlendMode, GlobalState, Rgba, Scalar, SelectedTab, ShaderKind, Vector3, Vector4,
};
use bevy_smud_demo::templates::{Template, Templates};

fn catalogue() -> Templates {
    Templates::new(
        vec![
            Template { name: String::from("square"), code: String::from("fn square() {}\n") },
            Template { name: String::from("circle"), code: String::from("fn circle() {}\r\n// end") },
        ],
        vec![Template {
            name: String::from("cubic_falloff"),
            code: String::from("#define_import_path old\nfn fill() {}\n"),
        }],
    )
}

fn source_of<'a>(assets: &'a Assets<Shader>, handle: &bevy_smud_demo::shader::ShaderHandle) -> &'a str {
    assets.get(&handle.handle).unwrap().source.as_str()
}

#[test]
fn a_new_shape_starts_from_the_defaults() {
    let mut assets = Assets::<Shader>::default();
    let mut state = GlobalState::default();
    let (shape_state, shape) = {
        let mut registry = ShaderRegistry { assets: &mut assets };
        add_shape(&catalogue(), &mut state, &mut registry)
    };
    let zero = Scalar { bits: 0 };
    assert_eq!(shape_state.id, 0);
    assert_eq!(shape_state.position, Vector3 { x: zero, y: zero, z: zero });
    assert_eq!(shape_state.rotation, zero);
    assert_eq!(shape_state.scale, Scalar { bits: DEFAULT_SHAPE_SCALE_BITS });
    assert_eq!(shape_state.bounds_length, Scalar { bits: DEFAULT_SHAPE_BOUNDS_LENGTH_BITS });
    assert_eq!(shape_state.color, Rgba { r: 200, g: 100, b: 100, a: 255 });
    assert_eq!(shape_state.params, Vector4 { x: zero, y: zero, z: zero, w: zero });
    assert_eq!(shape_state.blend_mode, BlendMode::Alpha);
    assert_eq!(shape_state.selected_shader, ShaderKind::Sdf);
    assert_eq!(shape.position, shape_state.position);
    assert_eq!(shape.rotation, shape_state.rotation);
    assert_eq!(shape.scale, shape_state.scale);
    assert_eq!(shape.color, shape_state.color);
    assert_eq!(shape.bounds_length, shape_state.bounds_length);
    assert_eq!(shape.params, shape_state.params);
    assert_eq!(shape.blend_mode, shape_state.blend_mode);
    assert_eq!(state.selected_tab, SelectedTab::Shape(0));
    assert_eq!(state.scroll_to(), Some(0));
    assert_eq!(state.next_shape_id(), 1);
    assert_eq!(state.next_shader_id(), 2);
}

#[test]
fn a_new_shape_takes_its_code_from_the_default_templates() {
    let mut assets = Assets::<Shader>::default();
    let mut state = GlobalState::default();
    let (shape_state, shape) = {
        let mut registry = ShaderRegistry { assets: &mut assets };
        add_shape(&catalogue(), &mut state, &mut registry)
    };
    assert_eq!(shape_state.sdf_code, "fn circle() {}\r\n// end");
    assert_eq!(shape_state.fill_code, "#define_import_path old\nfn fill() {}\n");
    assert_eq!(assets.len(), 2);
    assert_ne!(shape.sdf.handle, shape.fill.handle);
    assert_eq!(
        source_of(&assets, &shape.sdf),
        "#define_import_path smud_demo::temp::shader_0\nfn circle() {}\n// end\n"
    );
    assert_eq!(
        source_of(&assets, &shape.fill),
        "#define_import_path smud_demo::temp::shader_1\nfn fill() {}\n"
    );
}

#[test]
fn a_new_shape_without_default_templates_has_empty_code() {
    let mut assets = Assets::<Shader>::default();
    let mut state = GlobalState::default();
    let (shape_state, shape) = {
        let mut registry = ShaderRegistry { assets: &mut assets };
        add_shape(&Templates::new(Vec::new(), Vec::new()), &mut state, &mut registry)
    };
    assert_eq!(shape_state.sdf_code, "");
    assert_eq!(shape_state.fill_code, "");
    assert_eq!(source_of(&assets, &shape.sdf), "#define_import_path smud_demo::temp::shader_0\n");
    assert_eq!(source_of(&assets, &shape.fill), "#define_import_path smud_demo::temp::shader_1\n");
}

#[test]
fn a_second_shape_gets_the_next_numbers() {
    let mut assets = Assets::<Shader>::default();
    let mut state = GlobalState::default();
    let mut registry = ShaderRegistry { assets: &mut assets };
    let (first, first_shape) = add_shape(&catalogue(), &mut state, &mut registry);
    let (second, second_shape) = add_shape(&catalogue(), &mut state, &mut registry);
    assert_eq!(first.id, 0);
    assert_eq!(second.id, 1);
    assert_eq!(state.selected_tab, SelectedTab::Shape(1));
    assert_eq!(state.next_shader_id(), 4);
    assert_ne!(first_shape.sdf.handle, second_shape.sdf.handle);
    assert_ne!(first_shape.fill.handle, second_shape.fill.handle);
}

#[test]
fn a_copy_differs_by_its_id_alone() {
    let mut assets = Assets::<Shader>::default();
    let mut state = GlobalState::default();
    let (mut shape_state, mut shape) = {
        let mut registry = ShaderRegistry { assets: &mut assets };
        add_shape(&catalogue(), &mut state, &mut registry)
    };
    shape_state.position.x = Scalar { bits: 0x4120_0000 };
    shape_state.rotation = Scalar { bits: 0x3fc0_0000 };
    shape_state.scale = Scalar { bits: 0x4000_0000 };
    shape_state.color = Rgba { r: 9, g: 8, b: 7, a: 6 };
    shape_state.selected_shader = ShaderKind::Fill;
    shape_state.sdf_code = String::from("edited sdf");
    shape_state.fill_code = String::from("edited fill");
    shape_state.bounds_length = Scalar { bits: 0x42c8_0000 };
    shape_state.params.w = Scalar { bits: 0xbf80_0000 };
    shape_state.blend_mode = BlendMode::Additive;
    shape.apply(&shape_state, None);
    state.select_tab(SelectedTab::Global, &vec![0]);
    let (copied_state, copied_shape) = clone_shape(&mut state, &shape, &shape_state);
    assert_eq!(copied_state.id, 1);
    assert_eq!(copied_state.position, shape_state.position);
    assert_eq!(copied_state.rotation, shape_state.rotation);
    assert_eq!(copied_state.scale, shape_state.scale);
    assert_eq!(copied_state.color, shape_state.color);
    assert_eq!(copied_state.selected_shader, ShaderKind::Fill);
    assert_eq!(copied_state.sdf_code, "edited sdf");
    assert_eq!(copied_state.fill_code, "edited fill");
    assert_eq!(copied_state.bounds_length, shape_state.bounds_length);
    assert_eq!(copied_state.params, shape_state.params);
    assert_eq!(copied_state.blend_mode, BlendMode::Additive);
    assert_eq!(copied_shape.position, shape.position);
    assert_eq!(copied_shape.rotation, shape.rotation);
    assert_eq!(copied_shape.scale, shape.scale);
    assert_eq!(copied_shape.color, shape.color);
    assert_eq!(copied_shape.bounds_length, shape.bounds_length);
    assert_eq!(copied_shape.params, shape.params);
    assert_eq!(copied_shape.blend_mode, shape.blend_mode);
    assert_eq!(copied_shape.sdf.handle, shape.sdf.handle);
    assert_eq!(copied_shape.fill.handle, shape.fill.handle);
    assert_ne!(copied_shape.sdf.handle, copied_shape.fill.handle);
    assert_eq!(assets.len(), 2);
    assert_eq!(state.next_shader_id(), 2);
    assert_eq!(state.next_shape_id(), 2);
    assert_eq!(state.selected_tab, SelectedTab::Shape(1));
    assert_eq!(state.scroll_to(), Some(1));
    assert_eq!(shape_state.id, 0);
}

#[test]
fn an_update_without_compiling_keeps_both_handles() {
    let mut assets = Assets::<Shader>::default();
    let mut state = GlobalState::default();
    let mut registry = ShaderRegistry { assets: &mut assets };
    let (mut shape_state, mut shape) = add_shape(&catalogue(), &mut state, &mut registry);
    let sdf_before = shape.sdf.handle.clone();
    let fill_before = shape.fill.handle.clone();
    shape_state.sdf_code = String::from("fn edited() {}");
    shape_state.color = Rgba { r: 1, g: 2, b: 3, a: 4 };
    shape_state.position.y = Scalar { bits: 0x4120_0000 };
    shape_state.rotation = Scalar { bits: 0x3fc0_0000 };
    shape_state.scale = Scalar { bits: 0x4000_0000 };
    shape_state.bounds_length = Scalar { bits: 0x42c8_0000 };
    shape_state.params.z = Scalar { bits: 0x3f00_0000 };
    shape_state.blend_mode = BlendMode::Additive;
    update_shape(&mut state, &mut registry, &mut shape, &shape_state, false);
    assert_eq!(shape.sdf.handle, sdf_before);
    assert_eq!(shape.fill.handle, fill_before);
    assert_eq!(state.next_shader_id(), 2);
    assert_eq!(shape.color, Rgba { r: 1, g: 2, b: 3, a: 4 });
    assert_eq!(shape.position, shape_state.position);
    assert_eq!(shape.rotation, Scalar { bits: 0x3fc0_0000 });
    assert_eq!(shape.scale, Scalar { bits: 0x4000_0000 });
    assert_eq!(shape.bounds_length, Scalar { bits: 0x42c8_0000 });
    assert_eq!(shape.params, shape_state.params);
    assert_eq!(shape.blend_mode, BlendMode::Additive);
    assert_eq!(assets.len(), 2);
}

#[test]
fn an_update_with_compiling_replaces_both_handles() {
    let mut assets = Assets::<Shader>::default();
    let mut state = GlobalState::default();
    let mut registry = ShaderRegistry { assets: &mut assets };
    let (mut shape_state, mut shape) = add_shape(&catalogue(), &mut state, &mut registry);
    let sdf_before = shape.sdf.handle.clone();
    let fill_before = shape.fill.handle.clone();
    shape_state.sdf_code = String::from("fn edited() {}");
    shape_state.color = Rgba { r: 1, g: 2, b: 3, a: 4 };
    update_shape(&mut state, &mut registry, &mut shape, &shape_state, true);
    assert_ne!(shape.sdf.handle, sdf_before);
    assert_ne!(shape.fill.handle, fill_before);
    assert_ne!(shape.sdf.handle, shape.fill.handle);
    assert_eq!(state.next_shader_id(), 4);
    assert_eq!(shape.color, Rgba { r: 1, g: 2, b: 3, a: 4 });
    assert_eq!(
        source_of(&assets, &shape.sdf),
        "#define_import_path smud_demo::temp::shader_2\nfn edited() {}\n"
    );
    assert_eq!(
        source_of(&assets, &shape.fill),
        "#define_import_path smud_demo::temp::shader_3\nfn fill() {}\n"
    );
    assert_eq!(
        source_of(&assets, &bevy_smud_demo::shader::ShaderHandle { handle: sdf_before }),
        "#define_import_path smud_demo::temp::shader_0\nfn circle() {}\n// end\n"
    );
}

#[test]
fn a_copy_keeps_its_handles_when_its_source_is_compiled_again() {
    let mut assets = Assets::<Shader>::default();
    let mut state = GlobalState::default();
    let mut registry = ShaderRegistry { assets: &mut assets };
    let (shape_state, mut shape) = add_shape(&catalogue(), &mut state, &mut registry);
    let (_, copied_shape) = clone_shape(&mut state, &shape, &shape_state);
    let sdf_before = shape.sdf.handle.clone();
    update_shape(&mut state, &mut registry, &mut shape, &shape_state, true);
    assert_eq!(copied_shape.sdf.handle, sdf_before);
    assert_ne!(copied_shape.sdf.handle, shape.sdf.handle);
    assert_ne!(copied_shape.fill.handle, shape.fill.handle);
}

#[test]
fn compiling_both_takes_the_distance_function_first() {
    let mut assets = Assets::<Shader>::default();
    let mut state = GlobalState::default();
    let (shape_state, _) = {
        let mut registry = ShaderRegistry { assets: &mut assets };
        add_shape(&catalogue(), &mut state, &mut registry)
    };
    let (sdf, fill) = {
        let mut registry = ShaderRegistry { assets: &mut assets };
        compile_both(&mut state, &mut registry, &shape_state)
    };
    assert_eq!(state.next_shader_id(), 4);
    assert_eq!(
        source_of(&assets, &sdf),
        "#define_import_path smud_demo::temp::shader_2\nfn circle() {}\n// end\n"
    );
    assert_eq!(
        source_of(&assets, &fill),
        "#define_import_path smud_demo::temp::shader_3\nfn fill() {}\n"
    );
}
