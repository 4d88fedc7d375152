use statusbar::modules::{Module, ModuleRes, Modules};
use statusbar::output::ModuleOutput;

struct Scripted {
    make: fn(usize) -> ModuleRes,
    calls: usize,
    cadence: usize,
}

impl Scripted {
    fn new(cadence: usize, make: fn(usize) -> ModuleRes) -> Self {
        Scripted { make, calls: 0, cadence }
    }
}

impl Module for Scripted {
    fn get_output(&mut self) -> ModuleRes {
        let r = (self.make)(self.calls);
        self.calls += 1;
        r
    }

    fn rate(&self) -> usize {
        self.cadence
    }
}

fn text(s: &str) -> ModuleRes {
    Ok(ModuleOutput::new(s.to_string()))
}

#[test]
fn always_on_producer_every_tick() {
    let mut m = Modules::new(vec![Scripted::new(1, |_| text("12:00"))]);
    for _ in 0..4 {
        assert_eq!(m.combine_modules(), "[{\"full_text\": \"12:00\"}]");
    }
    assert_eq!(m.tick(), 4);
}

#[test]
fn slow_producer_reuses_cache() {
    let mut m = Modules::new(vec![Scripted::new(3, |n| if n == 0 { text("X") } else { text("Y") })]);
    assert_eq!(m.combine_modules(), "[{\"full_text\": \"X\"}]");
    assert_eq!(m.combine_modules(), "[{\"full_text\": \"X\"}]");
    assert_eq!(m.combine_modules(), "[{\"full_text\": \"X\"}]");
    assert_eq!(m.combine_modules(), "[{\"full_text\": \"Y\"}]");
}

#[test]
fn silent_failure_is_omitted() {
    let mut m = Modules::new(vec![
        Scripted::new(1, |_| text("A")),
        Scripted::new(1, |_| Err(None)),
    ]);
    for _ in 0..3 {
        assert_eq!(m.combine_modules(), "[{\"full_text\": \"A\"}]");
    }
}

#[test]
fn sampler_called_once_per_cadence() {
    let mut m = Modules::new(vec![Scripted::new(4, |n| text(&format!("n{}", n)))]);
    for _ in 0..4 {
        assert_eq!(m.combine_modules(), "[{\"full_text\": \"n0\"}]");
    }
    assert_eq!(m.combine_modules(), "[{\"full_text\": \"n1\"}]");
}

#[test]
fn sampler_invocations_follow_cadence() {
    let mut m = Modules::new(vec![Scripted::new(3, |n| text(&format!("n{}", n)))]);
    let got: Vec<String> = (0..7).map(|_| m.combine_modules()).collect();
    assert_eq!(got[0], "[{\"full_text\": \"n0\"}]");
    assert_eq!(got[2], "[{\"full_text\": \"n0\"}]");
    assert_eq!(got[3], "[{\"full_text\": \"n1\"}]");
    assert_eq!(got[5], "[{\"full_text\": \"n1\"}]");
    assert_eq!(got[6], "[{\"full_text\": \"n2\"}]");
}

#[test]
fn order_follows_registration() {
    let mut m = Modules::new(vec![
        Scripted::new(2, |_| text("first")),
        Scripted::new(1, |_| text("second")),
        Scripted::new(3, |_| text("third")),
    ]);
    for _ in 0..5 {
        assert_eq!(
            m.combine_modules(),
            "[{\"full_text\": \"first\"}, {\"full_text\": \"second\"}, {\"full_text\": \"third\"}]"
        );
    }
}

#[test]
fn silent_failure_clears_cache() {
    let mut m = Modules::new(vec![
        Scripted::new(1, |_| text("A")),
        Scripted::new(3, |n| if n == 0 { text("B") } else { Err(None) }),
    ]);
    let both = "[{\"full_text\": \"A\"}, {\"full_text\": \"B\"}]";
    let only = "[{\"full_text\": \"A\"}]";
    assert_eq!(m.combine_modules(), both);
    assert_eq!(m.combine_modules(), both);
    assert_eq!(m.combine_modules(), both);
    assert_eq!(m.combine_modules(), only);
    assert_eq!(m.combine_modules(), only);
    assert_eq!(m.combine_modules(), only);
}

#[test]
fn empty_message_is_silent() {
    let mut m = Modules::new(vec![Scripted::new(2, |n| {
        if n == 0 {
            text("B")
        } else {
            Err(Some(String::new()))
        }
    })]);
    assert_eq!(m.combine_modules(), "[{\"full_text\": \"B\"}]");
    assert_eq!(m.combine_modules(), "[{\"full_text\": \"B\"}]");
    assert_eq!(m.combine_modules(), "[]");
    assert_eq!(m.combine_modules(), "[]");
}

#[test]
fn error_message_shown_and_not_cached() {
    let mut m = Modules::new(vec![Scripted::new(3, |_| Err(Some("Unsupported device".to_string())))]);
    assert_eq!(
        m.combine_modules(),
        "[{\"full_text\": \"Unsupported device\", \"color\": \"#ff0000\"}]"
    );
    assert_eq!(m.combine_modules(), "[]");
    assert_eq!(m.combine_modules(), "[]");
    assert_eq!(
        m.combine_modules(),
        "[{\"full_text\": \"Unsupported device\", \"color\": \"#ff0000\"}]"
    );
}

#[test]
fn no_producers_gives_empty_array() {
    let mut m: Modules<Scripted> = Modules::new(Vec::new());
    assert_eq!(m.len(), 0);
    assert_eq!(m.combine_modules(), "[]");
}

#[test]
fn zero_rate_is_every_tick() {
    let mut m = Modules::new(vec![Scripted::new(0, |n| text(&format!("{}", n)))]);
    assert!(m.is_due(0));
    assert_eq!(m.combine_modules(), "[{\"full_text\": \"0\"}]");
    assert_eq!(m.combine_modules(), "[{\"full_text\": \"1\"}]");
}

#[test]
fn combine_samples_uses_given_results() {
    let mut m = Modules::new(vec![
        Scripted::new(1, |_| text("unused")),
        Scripted::new(2, |_| text("unused")),
    ]);
    assert!(m.is_due(0) && m.is_due(1));
    let line = m.combine_samples(vec![Some(text("a")), Some(text("b"))]);
    assert_eq!(line, "[{\"full_text\": \"a\"}, {\"full_text\": \"b\"}]");
    assert!(m.is_due(0) && !m.is_due(1));
    let line = m.combine_samples(vec![Some(Err(Some("bad".to_string()))), None]);
    assert_eq!(
        line,
        "[{\"full_text\": \"bad\", \"color\": \"#ff0000\"}, {\"full_text\": \"b\"}]"
    );
    assert_eq!(m.tick(), 2);
}
