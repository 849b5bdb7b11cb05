use bevy::asset::Assets;
use bevy::shader::{Shader, ShaderImport};
use bevy_smud_demo::shader::{
    add_unique_shader_import_path, chars_of, create_shader, import_line_of, range_contains,
    ShaderRegistry,
};
use bevy_smud_demo::state::GlobalState;

fn rewrite(code: &str, id: u32) -> String {
    let mut state = GlobalState::default();
    while state.next_shader_id() < id {
        state.create_shader();
    }
    let text = add_unique_shader_import_path(code, &mut state);
    assert_eq!(state.next_shader_id(), id + 1);
    text
}

fn directive_lines(text: &str) -> usize {
    text.lines().filter(|line| line.contains("#define_import_path")).count()
}

#[test]
fn import_line_names_the_compilation() {
    assert_eq!(import_line_of(0), "#define_import_path smud_demo::temp::shader_0");
    assert_eq!(import_line_of(7), "#define_import_path smud_demo::temp::shader_7");
    assert_eq!(import_line_of(10), "#define_import_path smud_demo::temp::shader_10");
    assert_eq!(import_line_of(1203), "#define_import_path smud_demo::temp::shader_1203");
    assert_eq!(
        import_line_of(u32::MAX),
        "#define_import_path smud_demo::temp::shader_4294967295"
    );
}

#[test]
fn chars_of_gives_every_character() {
    assert_eq!(chars_of("a\u{e9}\n"), vec!['a', '\u{e9}', '\n']);
    assert_eq!(chars_of(""), Vec::<char>::new());
}

#[test]
fn range_contains_searches_only_the_range() {
    let text = chars_of("abcabd");
    assert!(range_contains(&text, 0, 6, &chars_of("abd")));
    assert!(!range_contains(&text, 0, 5, &chars_of("abd")));
    assert!(range_contains(&text, 3, 6, &chars_of("abd")));
    assert!(!range_contains(&text, 4, 6, &chars_of("abd")));
    assert!(range_contains(&text, 2, 2, &chars_of("")));
    assert!(!range_contains(&text, 0, 2, &chars_of("abc")));
}

#[test]
fn rewriting_puts_the_import_line_first() {
    assert_eq!(
        rewrite("fn sdf(p: vec2<f32>) -> f32 {\n    return 1.0;\n}\n", 0),
        "#define_import_path smud_demo::temp::shader_0\nfn sdf(p: vec2<f32>) -> f32 {\n    return 1.0;\n}\n"
    );
}

#[test]
fn rewriting_closes_the_last_line() {
    assert_eq!(rewrite("a\nb", 3), "#define_import_path smud_demo::temp::shader_3\na\nb\n");
}

#[test]
fn rewriting_nothing_gives_the_import_line_alone() {
    assert_eq!(rewrite("", 12), "#define_import_path smud_demo::temp::shader_12\n");
}

#[test]
fn rewriting_keeps_empty_lines() {
    assert_eq!(rewrite("\n\na\n\n", 1), "#define_import_path smud_demo::temp::shader_1\n\n\na\n\n");
}

#[test]
fn rewriting_drops_carriage_returns_before_line_feeds() {
    assert_eq!(rewrite("a\r\nb\r\n", 1), "#define_import_path smud_demo::temp::shader_1\na\nb\n");
    assert_eq!(rewrite("a\rb\r", 1), "#define_import_path smud_demo::temp::shader_1\na\rb\r\n");
    assert_eq!(rewrite("a\r\r\n", 1), "#define_import_path smud_demo::temp::shader_1\na\r\n");
}

#[test]
fn rewriting_strips_an_earlier_import_line() {
    let code = "#define_import_path smud_demo::temp::shader_3\nfn fill() {}\n";
    let text = rewrite(code, 8);
    assert_eq!(text, "#define_import_path smud_demo::temp::shader_8\nfn fill() {}\n");
    assert_eq!(directive_lines(&text), 1);
    assert_eq!(text.lines().next(), Some("#define_import_path smud_demo::temp::shader_8"));
}

#[test]
fn rewriting_strips_every_line_that_holds_the_directive() {
    let code = "a\n  #define_import_path x // old\nb\n#define_import_path y\r\nc #define_import_pathz";
    let text = rewrite(code, 2);
    assert_eq!(text, "#define_import_path smud_demo::temp::shader_2\na\nb\n");
    assert_eq!(directive_lines(&text), 1);
}

#[test]
fn rewriting_keeps_what_only_looks_like_the_directive() {
    let code = "#define_import_pat\n#define import_path\n";
    assert_eq!(
        rewrite(code, 0),
        "#define_import_path smud_demo::temp::shader_0\n#define_import_pat\n#define import_path\n"
    );
}

#[test]
fn rewriting_agrees_with_the_lines_of_std() {
    let codes = [
        "",
        "\n",
        "\r\n",
        "a",
        "a\r",
        "a\n\rb\n",
        "x\n#define_import_path q\n\ny\r\n\r\n",
        "\u{e9}t\u{e9}\r\n#define_import_path \u{e9}\n\u{4e16}\u{754c}",
    ];
    for code in codes {
        let mut expected = String::from("#define_import_path smud_demo::temp::shader_5\n");
        for line in code.lines() {
            if !line.contains("#define_import_path") {
                expected.push_str(line);
                expected.push('\n');
            }
        }
        assert_eq!(rewrite(code, 5), expected);
    }
}

#[test]
fn equal_sources_get_different_import_paths() {
    let mut state = GlobalState::default();
    let first = add_unique_shader_import_path("fn f() {}", &mut state);
    let second = add_unique_shader_import_path("fn f() {}", &mut state);
    let third = add_unique_shader_import_path("fn f() {}", &mut state);
    assert_ne!(first, second);
    assert_ne!(second, third);
    assert_ne!(first, third);
    assert_eq!(state.next_shader_id(), 3);
}

#[test]
fn create_shader_registers_the_rewritten_text() {
    let mut assets = Assets::<Shader>::default();
    let mut state = GlobalState::default();
    while state.next_shader_id() < 4 {
        state.create_shader();
    }
    let handle = {
        let mut registry = ShaderRegistry { assets: &mut assets };
        create_shader(&mut registry, &mut state, "#define_import_path old\nfn f() {}")
    };
    assert_eq!(state.next_shader_id(), 5);
    assert_eq!(assets.len(), 1);
    let shader = assets.get(&handle.handle).unwrap();
    assert_eq!(
        shader.source.as_str(),
        "#define_import_path smud_demo::temp::shader_4\nfn f() {}\n"
    );
    assert_eq!(shader.import_path, ShaderImport::Custom(String::from("smud_demo::temp::shader_4")));
}

#[test]
fn equal_sources_get_different_handles() {
    let mut assets = Assets::<Shader>::default();
    let mut state = GlobalState::default();
    let (first, second, third) = {
        let mut registry = ShaderRegistry { assets: &mut assets };
        let first = create_shader(&mut registry, &mut state, "fn f() {}");
        let second = create_shader(&mut registry, &mut state, "fn f() {}");
        let third = create_shader(&mut registry, &mut state, "fn f() {}");
        (first, second, third)
    };
    assert_ne!(first.handle, second.handle);
    assert_ne!(second.handle, third.handle);
    assert_ne!(first.handle, third.handle);
    assert_eq!(assets.len(), 3);
    assert_eq!(
        assets.get(&first.handle).unwrap().source.as_str(),
        "#define_import_path smud_demo::temp::shader_0\nfn f() {}\n"
    );
    assert_eq!(
        assets.get(&third.handle).unwrap().source.as_str(),
        "#define_import_path smud_demo::temp::shader_2\nfn f() {}\n"
    );
}
