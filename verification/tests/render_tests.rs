use sitegen::page::{Page, PageMetadata};
use sitegen::paths::SitePath;
use sitegen::render::{page_context, LoadError, Renderer, TemplateSource};

fn template(name: &str, source: &str) -> TemplateSource {
    TemplateSource { name: name.to_string(), source: source.to_string() }
}

fn page(title: Option<&str>, html: &str) -> Page {
    Page {
        metadata: PageMetadata { title: title.map(|text| text.to_string()), date: None },
        content: String::new(),
        html: html.to_string(),
        source_path: SitePath { segments: vec!["input".to_string(), "index.md".to_string()] },
    }
}

/// Has the engine do what the renderer asks for `page`.
fn render(renderer: &Renderer, page: &Page) -> Result<String, tera::Error> {
    let request = renderer.render_page(page);
    request.engine.render(&request.template, &request.context)
}

fn load_error(templates: Vec<TemplateSource>) -> LoadError {
    match Renderer::new(&templates) {
        Ok(_) => panic!("expected the set to be refused"),
        Err(error) => error,
    }
}

#[test]
fn context_binds_title_and_content() {
    let context = page_context(&page(Some("Hi"), "<p>x</p>\n"));
    assert_eq!(context.get("title").and_then(|value| value.as_str()), Some("Hi"));
    assert_eq!(context.get("content").and_then(|value| value.as_str()), Some("<p>x</p>\n"));
    assert!(!context.contains_key("date"));
    assert!(!context.contains_key("metadata"));
}

#[test]
fn context_binds_an_absent_title_as_null() {
    let context = page_context(&page(None, "<p>x</p>\n"));
    assert!(context.contains_key("title"));
    assert!(context.get("title").unwrap().is_null());
    assert_eq!(context.get("content").and_then(|value| value.as_str()), Some("<p>x</p>\n"));
}

#[test]
fn request_names_the_base_template_and_binds_the_page() {
    let renderer = Renderer::new(&vec![template("base.html", "x")]).unwrap();
    let page = page(Some("Hi"), "<p>x</p>");
    let request = renderer.render_page(&page);
    assert_eq!(request.template, "base.html");
    assert_eq!(request.context.get("title").and_then(|value| value.as_str()), Some("Hi"));
    assert_eq!(request.context.get("content").and_then(|value| value.as_str()), Some("<p>x</p>"));
    let names: Vec<&str> = request.engine.get_template_names().collect();
    assert_eq!(names, vec!["base.html"]);
}

#[test]
fn renders_through_the_base_template() {
    let renderer = Renderer::new(&vec![template("base.html", "<h1>{{title}}</h1>{{content}}")]).unwrap();
    let rendered = render(&renderer, &page(Some("Hi"), "<p>text</p>\n")).unwrap();
    assert_eq!(rendered, "<h1>Hi</h1><p>text</p>\n");
}

#[test]
fn bound_values_are_inserted_as_they_are() {
    let renderer = Renderer::new(&vec![template("base.html", "{{title}}|{{content}}")]).unwrap();
    let rendered = render(&renderer, &page(Some("a<b"), "<p>x</p>")).unwrap();
    assert_eq!(rendered, "a<b|<p>x</p>");
}

#[test]
fn template_can_escape_a_value_itself() {
    let renderer = Renderer::new(&vec![template("base.html", "{{ title | escape }}|{{ content | safe }}")])
        .unwrap();
    let rendered = render(&renderer, &page(Some("a<b"), "<p>x</p>")).unwrap();
    assert_eq!(rendered, "a&lt;b|<p>x</p>");
}

#[test]
fn template_can_fall_back_when_title_is_absent() {
    let renderer = Renderer::new(&vec![template(
        "base.html",
        "<title>{% if title %}{{ title }}{% else %}untitled{% endif %}</title>",
    )])
    .unwrap();
    assert_eq!(render(&renderer, &page(None, "")).unwrap(), "<title>untitled</title>");
    assert_eq!(render(&renderer, &page(Some("T"), "")).unwrap(), "<title>T</title>");
}

#[test]
fn absent_title_renders_as_nothing() {
    let renderer = Renderer::new(&vec![template("base.html", "[{{title}}]")]).unwrap();
    assert_eq!(render(&renderer, &page(None, "")).unwrap(), "[]");
}

#[test]
fn base_template_may_extend_and_include_others() {
    let renderer = Renderer::new(&vec![
        template("layout.html", "<body>{% block main %}{% endblock main %}</body>"),
        template("partials/title.html", "<h1>{{ title }}</h1>"),
        template(
            "base.html",
            "{% extends \"layout.html\" %}{% block main %}{% include \"partials/title.html\" %}{{ content }}{% endblock main %}",
        ),
    ])
    .unwrap();
    assert_eq!(render(&renderer, &page(Some("Hi"), "<p>x</p>")).unwrap(), "<body><h1>Hi</h1><p>x</p></body>");
}

#[test]
fn long_chain_of_extends_loads() {
    let renderer = Renderer::new(&vec![
        template("base.html", "{% extends \"three.html\" %}{% block main %}{{ title }}{% endblock main %}"),
        template("three.html", "{% extends \"two.html\" %}"),
        template("two.html", "{% extends \"one.html\" %}"),
        template("one.html", "<{% block main %}{% endblock main %}>"),
    ])
    .unwrap();
    assert_eq!(render(&renderer, &page(Some("Hi"), "")).unwrap(), "<Hi>");
}

#[test]
fn missing_base_template_fails_loading() {
    assert!(matches!(load_error(vec![template("other.html", "{{content}}")]), LoadError::MissingBase));
    assert!(matches!(load_error(Vec::new()), LoadError::MissingBase));
    assert!(matches!(load_error(vec![template("Base.html", "x")]), LoadError::MissingBase));
    assert!(matches!(load_error(vec![template("base.htm", "{{ broken")]), LoadError::MissingBase));
}

#[test]
fn template_syntax_error_fails_loading() {
    match load_error(vec![template("base.html", "{% if title %}never closed")]) {
        LoadError::Syntax { template, .. } => assert_eq!(template, "base.html"),
        other => panic!("expected a syntax error, found {:?}", other),
    }
    match load_error(vec![
        template("base.html", "fine"),
        template("first.html", "{{ title"),
        template("second.html", "{% endif %}"),
    ]) {
        LoadError::Syntax { template, .. } => assert_eq!(template, "first.html"),
        other => panic!("expected a syntax error, found {:?}", other),
    }
}

#[test]
fn missing_parent_template_fails_loading() {
    assert!(matches!(
        load_error(vec![template("base.html", "{% extends \"layout.html\" %}")]),
        LoadError::Engine(_)
    ));
}

#[test]
fn template_extending_itself_fails_loading() {
    match load_error(vec![template("base.html", "{% extends \"base.html\" %}")]) {
        LoadError::CircularExtends { template } => assert_eq!(template, "base.html"),
        other => panic!("expected a circle, found {:?}", other),
    }
}

#[test]
fn chain_running_into_a_circle_fails_loading() {
    match load_error(vec![
        template("base.html", "x"),
        template("a", "{% extends \"b\" %}"),
        template("b", "{% extends \"b\" %}"),
    ]) {
        LoadError::CircularExtends { template } => assert_eq!(template, "a"),
        other => panic!("expected a circle, found {:?}", other),
    }
    match load_error(vec![
        template("one", "{% extends \"two\" %}"),
        template("two", "{% extends \"three\" %}"),
        template("three", "{% extends \"one\" %}"),
        template("outside", "{% extends \"two\" %}"),
        template("base.html", "{% extends \"outside\" %}"),
    ]) {
        LoadError::CircularExtends { template } => assert_eq!(template, "one"),
        other => panic!("expected a circle, found {:?}", other),
    }
}

#[test]
fn circle_is_found_behind_templates_that_end() {
    match load_error(vec![
        template("base.html", "{% extends \"layout\" %}"),
        template("layout", "plain"),
        template("left", "{% extends \"right\" %}"),
        template("right", "{% extends \"left\" %}"),
    ]) {
        LoadError::CircularExtends { template } => assert_eq!(template, "left"),
        other => panic!("expected a circle, found {:?}", other),
    }
}

#[test]
fn of_two_templates_with_one_name_the_last_counts() {
    let renderer = Renderer::new(&vec![
        template("base.html", "{% extends \"base.html\" %}"),
        template("base.html", "second"),
    ])
    .unwrap();
    assert_eq!(render(&renderer, &page(None, "")).unwrap(), "second");
    match load_error(vec![template("base.html", "first"), template("base.html", "{% extends \"base.html\" %}")]) {
        LoadError::CircularExtends { template } => assert_eq!(template, "base.html"),
        other => panic!("expected a circle, found {:?}", other),
    }
}

#[test]
fn unresolved_expression_fails_the_render() {
    let renderer = Renderer::new(&vec![template("base.html", "{{ date }}")]).unwrap();
    assert!(render(&renderer, &page(Some("Hi"), "x")).is_err());
}

#[test]
fn renderers_do_not_share_templates() {
    let first = Renderer::new(&vec![template("base.html", "first")]).unwrap();
    let second = Renderer::new(&vec![template("base.html", "second")]).unwrap();
    assert_eq!(render(&first, &page(None, "")).unwrap(), "first");
    assert_eq!(render(&second, &page(None, "")).unwrap(), "second");
    assert_eq!(render(&first, &page(None, "")).unwrap(), "first");
}
