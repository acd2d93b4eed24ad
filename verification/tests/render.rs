use cohoard::markdown_to_html;
use cohoard::parse_posts;
use cohoard::post_process;
use cohoard::render;
use cohoard::strip_attributes;
use cohoard::Config;
use cohoard::RenderError;
use cohoard::User;

fn empty_config() -> Config {
    Config { people: Vec::new() }
}

#[test]
fn markdown_output_has_no_paragraph_tags() {
    let out = markdown_to_html("**bold**");
    assert!(!out.contains("<p>"));
    assert!(!out.contains("</p>"));
    assert!(out.contains("<strong>bold</strong>"));
}

#[test]
fn markdown_fenced_code_with_language_becomes_codeblock_div() {
    let out = markdown_to_html("```py\ncode\n```");
    assert_eq!(out, "<div class=\"cohoard-codeblock language-py\">code\n</div>\n");
}

#[test]
fn markdown_fenced_code_without_language_becomes_codeblock_div() {
    let out = markdown_to_html("```\ncode\n```");
    assert_eq!(out, "<div class=\"cohoard-codeblock\">code\n</div>\n");
}

#[test]
fn markdown_underline_becomes_styled_span() {
    let out = markdown_to_html("<u>word</u>");
    assert!(out.contains("<span class=\"cohoard-underline\">word</span>"));
    assert!(!out.contains("<u>"));
}

#[test]
fn markdown_inline_code_becomes_styled_span() {
    let out = markdown_to_html("`x`");
    assert!(out.contains("<span class=\"cohoard-code\">x</span>"));
    assert!(!out.contains("<code>"));
}

#[test]
fn markdown_strikethrough_is_supported() {
    let out = markdown_to_html("~~gone~~");
    assert!(out.contains("<del>gone</del>"));
}

#[test]
fn render_echoes_messages_verbatim() {
    let config = empty_config();
    let posts = parse_posts(&config, "A: x\ny\n".to_string());
    let template =
        "{% for post in posts %}{% if post.type == \"post\" %}{{ post.message }}{% endif %}{% endfor %}";
    let out = render("t", template, &posts, &config, Vec::new()).unwrap();
    assert_eq!(out, "x\ny\n");
}

#[test]
fn render_inlines_and_removes_style_tags() {
    let config = empty_config();
    let posts = Vec::new();
    let template = "<style>div { color: red; }</style><div>hi</div>";
    let out = render("t", template, &posts, &config, Vec::new()).unwrap();
    assert!(!out.contains("<style"));
    assert!(out.contains("style="));
    assert!(out.contains("color"));
    assert!(out.contains("hi"));
}

#[test]
fn render_strips_class_and_id_attributes() {
    let config = empty_config();
    let posts = Vec::new();
    let template = "<div class=\"a\" id=\"b\">x</div>";
    let out = render("t", template, &posts, &config, Vec::new()).unwrap();
    assert!(!out.contains("class="));
    assert!(!out.contains("id="));
    assert!(out.contains("x"));
}

#[test]
fn stripping_attributes_twice_equals_stripping_once() {
    // A single-root fragment: with several roots the surrounding body
    // extraction joins them with a newline, which the next pass keeps as
    // a text node of its own, so only the attribute removal itself is
    // repeatable.
    let html = "<div class=\"a\"><span id=\"s\" class=\"c\">t</span><p id=\"q\">u</p></div>";
    let once = strip_attributes(html).unwrap();
    let twice = strip_attributes(&once).unwrap();
    assert_eq!(once, twice);
    assert!(!once.contains("class="));
    assert!(!once.contains("id="));
}

#[test]
fn post_processing_inlines_styles_and_strips_attributes() {
    let html = "<style>a { color: red; }</style><a class=\"x\" id=\"y\">t</a>";
    let out = post_process(html).unwrap();
    assert!(!out.contains("<style"));
    assert!(!out.contains("class="));
    assert!(!out.contains("id="));
    assert!(out.contains("style="));
    assert!(out.contains("t"));
}

#[test]
fn end_to_end_lists_blocks_in_order() {
    let config = empty_config();
    let posts = parse_posts(&config, "X: hi\n@ Later\nY: bye\n".to_string());
    let template = "{% for post in posts %}[{{ post.type }}:{% if post.type == \"post\" %}{{ post.user.key }}{% endif %}:{{ post.message }}]{% endfor %}";
    let out = render("t", template, &posts, &config, Vec::new()).unwrap();
    let first = out.find("[post:X:hi").expect("first post missing");
    let second = out.find("[timestamp::Later]").expect("timestamp missing");
    let third = out.find("[post:Y:bye").expect("second post missing");
    assert!(first < second);
    assert!(second < third);
}

#[test]
fn users_are_exposed_in_table_order() {
    let config = Config {
        people: vec![
            (
                "A".to_string(),
                User {
                    fields: vec![
                        ("name".to_string(), "Alice".to_string()),
                        ("key".to_string(), "A".to_string()),
                    ],
                },
            ),
            (
                "B".to_string(),
                User {
                    fields: vec![
                        ("name".to_string(), "Bob".to_string()),
                        ("key".to_string(), "B".to_string()),
                    ],
                },
            ),
        ],
    };
    let posts = Vec::new();
    let template = "{% for u in users %}{{ u.name }};{% endfor %}";
    let out = render("t", template, &posts, &config, Vec::new()).unwrap();
    assert!(out.contains("Alice;Bob;"));
}

#[test]
fn additional_variables_reach_the_template() {
    let config = empty_config();
    let posts = Vec::new();
    let extra = vec![("title".to_string(), serde_json::Value::String("Hi".to_string()))];
    let out = render("t", "{{ title }}", &posts, &config, extra).unwrap();
    assert_eq!(out, "Hi");
}

#[test]
fn additional_variables_overwrite_posts_binding() {
    let config = empty_config();
    let posts = parse_posts(&config, "A: x\n".to_string());
    let extra = vec![("posts".to_string(), serde_json::Value::String("zap".to_string()))];
    let out = render("t", "{{ posts }}", &posts, &config, extra).unwrap();
    assert_eq!(out, "zap");
}

#[test]
fn bad_template_syntax_is_a_compile_error() {
    let config = empty_config();
    let posts = Vec::new();
    let err = render("t", "{% if %}", &posts, &config, Vec::new()).unwrap_err();
    assert!(matches!(err, RenderError::TemplateCompile { .. }));
}

#[test]
fn missing_variable_is_a_render_error() {
    let config = empty_config();
    let posts = Vec::new();
    let err = render("t", "{{ missing }}", &posts, &config, Vec::new()).unwrap_err();
    assert!(matches!(err, RenderError::TemplateRender { .. }));
}

#[test]
fn markdown_filter_on_non_string_is_a_render_error() {
    let config = empty_config();
    let posts = Vec::new();
    let err = render("t", "{{ posts | markdown }}", &posts, &config, Vec::new()).unwrap_err();
    assert!(matches!(err, RenderError::TemplateRender { .. }));
}

#[test]
fn unreachable_stylesheet_link_is_a_css_error() {
    let config = empty_config();
    let posts = Vec::new();
    let template = "<link rel=\"stylesheet\" href=\"http://example.invalid/a.css\"><div>x</div>";
    let err = render("t", template, &posts, &config, Vec::new()).unwrap_err();
    assert!(matches!(err, RenderError::CssInline { .. }));
    assert!(!err.message().is_empty());
}

#[test]
fn markdown_filter_applies_inside_templates() {
    let config = empty_config();
    let posts = parse_posts(&config, "A: **hey**\n".to_string());
    let template = "{% for post in posts %}{% if post.type == \"post\" %}{{ post.message | markdown }}{% endif %}{% endfor %}";
    let out = render("t", template, &posts, &config, Vec::new()).unwrap();
    assert!(out.contains("<strong>hey</strong>"));
    assert!(!out.contains("<p>"));
}
