use hyro::store::{ChangeError, TemplateStore};

#[test]
fn get_or_load_caches_first_text() {
    let mut store = TemplateStore::new();
    assert!(store.get("/todo").is_none());
    let t = store.get_or_load("/todo", "<p>{{ a }}</p>".to_string()).unwrap();
    assert_eq!(t, "<p>{{ a }}</p>");
    let again = store.get_or_load("/todo", "<p>other</p>".to_string()).unwrap();
    assert_eq!(again, "<p>{{ a }}</p>");
}

#[test]
fn invalidate_then_load_observes_new_text() {
    let mut store = TemplateStore::new();
    store.get_or_load("/todo", "old".to_string()).unwrap();
    store.invalidate("/todo", "new {{ x }}".to_string()).unwrap();
    assert_eq!(store.get_or_load("/todo", "disk".to_string()).unwrap(), "new {{ x }}");
    assert_eq!(store.get("/todo").unwrap(), "new {{ x }}");
}

#[test]
fn invalid_template_is_rejected_and_old_text_kept() {
    let mut store = TemplateStore::new();
    store.invalidate("/todo", "good".to_string()).unwrap();
    let e = store.invalidate("/todo", "{% if %}".to_string());
    assert!(e.is_err());
    assert!(!e.unwrap_err().message.is_empty());
    assert_eq!(store.get("/todo").unwrap(), "good");
}

#[test]
fn invalid_first_load_is_an_error() {
    let mut store = TemplateStore::new();
    assert!(store.get_or_load("/bad", "{{ unclosed".to_string()).is_err());
    assert!(store.get("/bad").is_none());
}

#[test]
fn changed_template_is_stored_and_published() {
    let mut store = TemplateStore::new();
    let r = store.watched_file_changed("todo.html.jinja2", ".html.jinja2", Some("v2".to_string()));
    assert_eq!(r.unwrap(), "todo.html.jinja2");
    assert_eq!(store.get("/todo").unwrap(), "v2");
    let r = store.watched_file_changed("index.html.jinja2", ".html.jinja2", Some("home".to_string()));
    assert_eq!(r.unwrap(), "index.html.jinja2");
    assert_eq!(store.get("/").unwrap(), "home");
}

#[test]
fn broken_change_is_not_published() {
    let mut store = TemplateStore::new();
    store.invalidate("/todo", "v1".to_string()).unwrap();
    let r = store.watched_file_changed("todo.html.jinja2", ".html.jinja2", Some("{% for %}".to_string()));
    assert!(matches!(r, Err(ChangeError::Rejected(_))));
    assert_eq!(store.get("/todo").unwrap(), "v1");
}

#[test]
fn unreadable_change_is_not_published() {
    let mut store = TemplateStore::new();
    let r = store.watched_file_changed("todo.html.jinja2", ".html.jinja2", None);
    assert!(matches!(r, Err(ChangeError::Unreadable)));
    assert!(store.get("/todo").is_none());
}

#[test]
fn other_files_are_published_untouched() {
    let mut store = TemplateStore::new();
    let r = store.watched_file_changed("main.css", ".html.jinja2", None);
    assert_eq!(r.unwrap(), "main.css");
    assert!(store.get("/main").is_none());
}

#[test]
fn commit_follows_the_check() {
    let mut store = TemplateStore::new();
    assert!(store.commit("/a", "x".to_string(), Err("bad".to_string())).is_err());
    assert!(store.get("/a").is_none());
    assert!(store.commit("/a", "x".to_string(), Ok(())).is_ok());
    assert_eq!(store.get("/a").unwrap(), "x");
}
