use hyro::config::{set_template_dir, set_template_file_extension, Settings};
use hyro::endpoint::{endpoint_for_file, endpointof, module, path_of_endpoint, template_file_for};
use hyro::file_type::FileType;
use hyro::inject::{inject_hmr, inject_template_path};

const EXT: &str = ".html.jinja2";

#[test]
fn endpointof_strips_extension_and_index() {
    assert_eq!(endpointof("/todo.html.jinja2", EXT), "/todo");
    assert_eq!(endpointof("/index.html.jinja2", EXT), "/");
    assert_eq!(endpointof("index.html.jinja2", EXT), "");
    assert_eq!(endpointof("todo.html.jinja2", EXT), "todo");
    assert_eq!(endpointof("sub/index.html.jinja2", EXT), "sub/");
    assert_eq!(endpointof("/myindex.html.jinja2", EXT), "/myindex");
    assert_eq!(endpointof("/a.html.jinja2.html.jinja2", EXT), "/a");
    assert_eq!(endpointof("/a", ""), "/a");
}

#[test]
fn endpoint_for_file_adds_root_slash() {
    assert_eq!(endpoint_for_file("todo.html.jinja2", EXT), "/todo");
    assert_eq!(endpoint_for_file("index.html.jinja2", EXT), "/");
    assert_eq!(endpoint_for_file("/list/item.html.jinja2", EXT), "/list/item");
}

#[test]
fn path_of_endpoint_finds_template_file() {
    assert_eq!(path_of_endpoint("/todo", EXT), "todo.html.jinja2");
    assert_eq!(path_of_endpoint("/", EXT), "index.html.jinja2");
    assert_eq!(path_of_endpoint("/sub/", EXT), "sub/index.html.jinja2");
    assert_eq!(path_of_endpoint("/main.css", EXT), "main.css");
    assert_eq!(path_of_endpoint("todo", EXT), "todo.html.jinja2");
}

#[test]
fn template_file_for_uses_given_extension_flag() {
    assert_eq!(template_file_for("/a.b", false, EXT), "a.b.html.jinja2");
    assert_eq!(template_file_for("/a", true, EXT), "a");
}

#[test]
fn module_builds_placeholder() {
    assert_eq!(
        module("/todo", EXT, None),
        r#"<div hx-trigger="revealed" hx-swap="outerHTML" hx-get="todo"></div>"#
    );
    assert_eq!(
        module("/todo", EXT, Some("a=1&b=2")),
        r#"<div hx-trigger="revealed" hx-swap="outerHTML" hx-get="todo?a=1&b=2"></div>"#
    );
}

#[test]
fn template_path_goes_on_first_tag() {
    assert_eq!(
        inject_template_path("/todo", "<div>hi</div>"),
        "<div hmr-path=\"/todo\">hi</div>"
    );
    assert_eq!(
        inject_template_path("/", "<!DOCTYPE html><html><head></head></html>"),
        "<!DOCTYPE html><html hmr-path=\"/\"><head></head></html>"
    );
    assert_eq!(inject_template_path("/x", "plain text"), "plain text");
    assert_eq!(inject_template_path("/x", "<!DOCTYPE html>"), "<!DOCTYPE html>");
}

#[test]
fn reload_client_goes_before_head_end() {
    assert_eq!(
        inject_hmr("<html><head><title>t</title></head><body></body></html>", "go()"),
        "<html><head><title>t</title>\n\t<script>\ngo()\n</script>\n</head><body></body></html>"
    );
    assert_eq!(inject_hmr("<div></div>", "go()"), "<div></div>");
}

#[test]
fn settings_defaults_and_single_assignment() {
    let mut s = Settings::new();
    assert_eq!(s.template_dir(), "templates");
    assert_eq!(s.template_extension(), ".html.jinja2");
    assert_eq!(set_template_dir(&mut s, "views".to_string()), Ok(()));
    assert_eq!(set_template_dir(&mut s, "other".to_string()), Err("other".to_string()));
    assert_eq!(s.template_dir(), "views");
    assert_eq!(set_template_file_extension(&mut s, "..j2"), Ok(()));
    assert_eq!(s.template_extension(), ".j2");
    assert_eq!(set_template_file_extension(&mut s, "html"), Err(".html".to_string()));
    assert_eq!(s.template_extension(), ".j2");
}

#[test]
fn extension_without_dot_gets_one() {
    let mut s = Settings::new();
    set_template_file_extension(&mut s, "tpl").unwrap();
    assert_eq!(s.template_extension(), ".tpl");
}

#[test]
fn file_type_matches() {
    let css = FileType::Extension("css".to_string());
    assert!(css.matches_file(Some("css"), None));
    assert!(!css.matches_file(Some("js"), Some("css")));
    assert!(!css.matches_file(None, None));
    let png = FileType::Mime("image/png".to_string());
    assert!(png.matches_file(None, Some("image/png")));
    assert!(!png.matches_file(Some("image/png"), Some("image/jpeg")));
}

#[test]
fn endpoint_file_round_trip() {
    for endpoint in ["/", "/todo", "/sub/", "/list/item"] {
        let file = path_of_endpoint(endpoint, EXT);
        assert_eq!(endpoint_for_file(&file, EXT), endpoint);
    }
}

#[test]
fn index_in_dotted_directory_round_trips() {
    let file = "a.b/index.html.jinja2";
    let endpoint = endpoint_for_file(file, EXT);
    assert_eq!(endpoint, "/a.b/");
    assert_eq!(path_of_endpoint(&endpoint, EXT), file);
    assert_eq!(path_of_endpoint("/v1.2/page", EXT), "v1.2/page.html.jinja2");
    assert_eq!(
        module("/a.b/", EXT, None),
        r#"<div hx-trigger="revealed" hx-swap="outerHTML" hx-get="a.b/index"></div>"#
    );
}

#[test]
fn serving_name_adds_index_for_directories() {
    assert_eq!(hyro::endpoint::serving_name_of("/a/"), "/a/index");
    assert_eq!(hyro::endpoint::serving_name_of("/a"), "/a");
}
