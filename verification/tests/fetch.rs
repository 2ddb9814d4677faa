use lo::fetch::{Fetch, FetchPhase, Reply, MAX_REDIRECTS};

fn public() -> Vec<String> {
    vec!["93.184.216.34".to_string()]
}

fn redirect(to: &str) -> Option<Reply> {
    Some(Reply { status: 302, location: Some(to.to_string()) })
}

#[test]
fn fetch_targets_are_checked_before_any_lookup() {
    let f = Fetch::start("  https://Example.com/a ");
    assert_eq!(f.phase, FetchPhase::Resolve);
    assert_eq!(f.url, "https://example.com/a");
    assert_eq!(f.host, "example.com");
    let f = Fetch::start("ftp://example.com/");
    assert_eq!(f.phase, FetchPhase::Failed);
    assert_eq!(f.message, "Only http and https URLs can be fetched.");
    let f = Fetch::start("not a url");
    assert_eq!(f.message, "That is not a valid URL.");
    for bad in ["http://127.0.0.1/", "http://localhost/x", "http://printer.local/", "http://[::1]/", "http://10.1.2.3"] {
        let f = Fetch::start(bad);
        assert_eq!(f.phase, FetchPhase::Failed, "{bad}");
        assert_eq!(f.message, "That address is not allowed.", "{bad}");
    }
}

#[test]
fn resolved_addresses_are_checked() {
    let mut f = Fetch::start("http://example.com/");
    f.on_resolved(Some(&vec!["93.184.216.34".to_string(), "192.168.1.9".to_string()]));
    assert_eq!(f.phase, FetchPhase::Failed);
    assert_eq!(f.message, "That address is not allowed.");
    let mut f = Fetch::start("http://example.com/");
    f.on_resolved(None);
    assert_eq!(f.message, "Could not resolve that host.");
    let mut f = Fetch::start("http://example.com/");
    f.on_resolved(Some(&public()));
    assert_eq!(f.phase, FetchPhase::Send);
}

#[test]
fn redirects_are_rechecked_and_capped() {
    let mut f = Fetch::start("https://example.com/a/b");
    f.on_resolved(Some(&public()));
    f.on_response(redirect("../c?q=1"));
    assert_eq!(f.phase, FetchPhase::Resolve);
    assert_eq!(f.hop, 1);
    assert_eq!(f.url, "https://example.com/c?q=1");
    f.on_resolved(Some(&public()));
    f.on_response(redirect("http://169.254.169.254/latest"));
    assert_eq!(f.phase, FetchPhase::Failed);
    assert_eq!(f.message, "That address is not allowed.");

    let mut f = Fetch::start("https://example.com/");
    for hop in 0..MAX_REDIRECTS {
        assert_eq!(f.hop, hop);
        f.on_resolved(Some(&public()));
        f.on_response(redirect("/next"));
        assert_eq!(f.phase, FetchPhase::Resolve);
    }
    f.on_resolved(Some(&public()));
    f.on_response(redirect("/again"));
    assert_eq!(f.phase, FetchPhase::Failed);
    assert_eq!(f.message, "Too many redirects.");
}

#[test]
fn final_answers_are_read_or_refused() {
    let mut f = Fetch::start("https://example.com/");
    f.on_resolved(Some(&public()));
    f.on_response(Some(Reply { status: 200, location: None }));
    assert_eq!(f.phase, FetchPhase::Read);
    let mut f = Fetch::start("https://example.com/");
    f.on_resolved(Some(&public()));
    f.on_response(Some(Reply { status: 404, location: Some("/x".to_string()) }));
    assert_eq!(f.message, "The server returned 404.");
    let mut f = Fetch::start("https://example.com/");
    f.on_resolved(Some(&public()));
    f.on_response(Some(Reply { status: 301, location: None }));
    assert_eq!(f.message, "The server returned 301.");
    let mut f = Fetch::start("https://example.com/");
    f.on_resolved(Some(&public()));
    f.on_response(None);
    assert_eq!(f.message, "The request failed.");
}
