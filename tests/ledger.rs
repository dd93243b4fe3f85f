use hyro::ledger::{Form, FormHistory, FormLedger};
use hyro::template::template_hydrate;
use hyro::{ContextPlan, Template};

fn form(pairs: &[(&str, &str)]) -> Form {
    Form {
        fields: pairs
            .iter()
            .map(|(k, v)| (k.to_string(), v.to_string()))
            .collect(),
    }
}

fn pairs(f: &Form) -> Vec<(String, String)> {
    f.fields.clone()
}

fn ledger_with(client: &str, endpoint: &str, contents: &[Form]) -> FormLedger {
    let mut ledger = FormLedger::new();
    for f in contents {
        ledger.classify(client, endpoint, f.clone());
    }
    ledger
}

#[test]
fn fifo_reconciliation_returns_recorded_forms_in_order() {
    let a = form(&[("name", "A")]);
    let b = form(&[("name", "B")]);
    let c = form(&[("name", "C")]);
    let mut ledger = ledger_with("client1", "/todo", &[a.clone(), b, c.clone()]);
    ledger.set_pending("client1", "/todo", &vec![0, 2]);
    let first = ledger.classify("client1", "/todo", form(&[("name", "fresh1")]));
    let second = ledger.classify("client1", "/todo", form(&[("name", "fresh2")]));
    assert_eq!(pairs(&first), pairs(&a));
    assert_eq!(pairs(&second), pairs(&c));
    let h = ledger.history("client1", "/todo").unwrap();
    assert_eq!(h.contents.len(), 3);
    assert!(h.pending_ids().is_empty());
}

#[test]
fn empty_pending_appends_and_returns_submission() {
    let mut ledger = ledger_with("client1", "/todo", &[form(&[("a", "1")])]);
    let submitted = form(&[("a", "x"), ("b", "y")]);
    let r = ledger.classify("client1", "/todo", submitted.clone());
    assert_eq!(pairs(&r), pairs(&submitted));
    let h = ledger.history("client1", "/todo").unwrap();
    assert_eq!(h.contents.len(), 2);
    assert_eq!(pairs(&h.contents[1]), pairs(&submitted));
}

#[test]
fn first_submission_creates_history() {
    let mut ledger = FormLedger::new();
    assert!(ledger.history("c", "/e").is_none());
    let r = ledger.classify("c", "/e", form(&[]));
    assert!(r.fields.is_empty());
    let h = ledger.history("c", "/e").unwrap();
    assert_eq!(h.contents.len(), 1);
}

#[test]
fn pending_instance_never_recorded_is_treated_as_new() {
    let mut ledger = ledger_with("c", "/e", &[form(&[("k", "0")])]);
    ledger.set_pending("c", "/e", &vec![5, 0]);
    let r = ledger.classify("c", "/e", form(&[("k", "new")]));
    assert_eq!(pairs(&r), pairs(&form(&[("k", "new")])));
    let h = ledger.history("c", "/e").unwrap();
    assert_eq!(h.contents.len(), 2);
    assert_eq!(h.pending_ids(), vec![0]);
    let r2 = ledger.classify("c", "/e", form(&[("k", "other")]));
    assert_eq!(pairs(&r2), pairs(&form(&[("k", "0")])));
}

#[test]
fn histories_are_kept_per_client_and_endpoint() {
    let mut ledger = FormLedger::new();
    ledger.classify("x", "/a", form(&[("v", "xa")]));
    ledger.classify("y", "/a", form(&[("v", "ya")]));
    ledger.classify("x", "/b", form(&[("v", "xb")]));
    ledger.set_pending("x", "/a", &vec![0]);
    let ry = ledger.classify("y", "/a", form(&[("v", "fresh")]));
    assert_eq!(pairs(&ry), pairs(&form(&[("v", "fresh")])));
    let rx = ledger.classify("x", "/a", form(&[("v", "fresh")]));
    assert_eq!(pairs(&rx), pairs(&form(&[("v", "xa")])));
    assert_eq!(ledger.history("x", "/b").unwrap().contents.len(), 1);
}

#[test]
fn set_pending_replaces_the_queue() {
    let mut ledger = FormLedger::new();
    ledger.set_pending("c", "/e", &vec![1, 2, 3]);
    ledger.set_pending("c", "/e", &vec![7]);
    let h = ledger.history("c", "/e").unwrap();
    assert_eq!(h.pending_ids(), vec![7]);
    assert!(h.contents.is_empty());
}

#[test]
fn form_history_classify_direct() {
    let mut h = FormHistory::new();
    let r = h.classify(form(&[("a", "1")]));
    assert_eq!(pairs(&r), pairs(&form(&[("a", "1")])));
    h.set_pending(&vec![0]);
    let r = h.classify(form(&[("a", "2")]));
    assert_eq!(pairs(&r), pairs(&form(&[("a", "1")])));
}

#[test]
fn template_hydrate_keeps_path_and_classifies() {
    let mut ledger = FormLedger::new();
    let t = template_hydrate(&mut ledger, "c", "/todo".to_string(), form(&[("a", "x")]));
    assert_eq!(t.path, "/todo");
    assert_eq!(pairs(&t.form), pairs(&form(&[("a", "x")])));
    ledger.set_pending("c", "/todo", &vec![0]);
    let t = template_hydrate(&mut ledger, "c", "/todo".to_string(), form(&[("a", "y")]));
    assert_eq!(pairs(&t.form), pairs(&form(&[("a", "x")])));
}

#[test]
fn context_plan_places_form() {
    let empty = Template { path: "/".to_string(), form: form(&[]) };
    let full = Template { path: "/".to_string(), form: form(&[("a", "1")]) };
    assert_eq!(empty.context_plan(true, false), ContextPlan::AsGiven);
    assert_eq!(full.context_plan(true, false), ContextPlan::FormOnly);
    assert_eq!(full.context_plan(false, true), ContextPlan::AsGiven);
    assert_eq!(full.context_plan(false, false), ContextPlan::WithForm);
    assert_eq!(empty.context_plan(false, false), ContextPlan::WithForm);
}

#[test]
fn form_duplicate_and_is_empty() {
    let f = form(&[("a", "1"), ("b", "2")]);
    assert_eq!(pairs(&f.duplicate()), pairs(&f));
    assert!(!f.is_empty());
    assert!(Form::new().is_empty());
}

#[test]
fn form_insert_keeps_names_unique() {
    let mut f = Form::new();
    f.insert("a".to_string(), "1".to_string());
    f.insert("b".to_string(), "2".to_string());
    f.insert("a".to_string(), "3".to_string());
    assert_eq!(pairs(&f), pairs(&form(&[("a", "3"), ("b", "2")])));
}
