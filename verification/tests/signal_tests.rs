use render_core::cx::Cx;
use render_core::dispatch::EventHandler;
use render_core::events::Event;
use render_core::events::Signal;

/// Records every delivered signal payload; optionally re-sends one more
/// signal from inside the first delivery it sees.
struct SignalRecorder {
    signal: Signal,
    delivered: Vec<u64>,
    resend_payload: Option<u64>,
}

impl EventHandler for SignalRecorder {
    fn handle(&mut self, cx: &mut Cx, event: &mut Event) {
        if let Event::Signal(se) = event {
            self.delivered.push(se.value);
            if let Some(payload) = self.resend_payload.take() {
                cx.send_signal_before_draw(self.signal, payload);
            }
        }
    }
}

#[test]
fn new_signal_ids_are_fresh_and_increasing() {
    let mut cx = Cx::default();
    let s1 = cx.new_signal();
    let s2 = cx.new_signal();
    assert!(s1.signal_id < s2.signal_id);
}

#[test]
fn drain_delivers_in_insertion_order() {
    let mut cx = Cx::default();
    let s = cx.new_signal();
    cx.send_signal_before_draw(s, 1);
    cx.send_signal_before_draw(s, 2);
    cx.send_signal_before_draw(s, 3);
    let mut recorder = SignalRecorder { signal: s, delivered: Vec::new(), resend_payload: None };
    cx.call_signals_before_draw(&mut recorder);
    assert_eq!(recorder.delivered, vec![1, 2, 3]);
    assert!(cx.signals_before_draw.is_empty());
}

#[test]
fn send_during_drain_waits_for_the_next_drain() {
    let mut cx = Cx::default();
    let s = cx.new_signal();
    cx.send_signal_before_draw(s, 1);
    cx.send_signal_before_draw(s, 2);
    let mut recorder = SignalRecorder {
        signal: s,
        delivered: Vec::new(),
        resend_payload: Some(99),
    };
    cx.call_signals_before_draw(&mut recorder);
    // the pair sent from inside the handler is not delivered in the
    // same drain
    assert_eq!(recorder.delivered, vec![1, 2]);
    assert_eq!(cx.signals_before_draw.len(), 1);
    // the next drain delivers it
    cx.call_signals_before_draw(&mut recorder);
    assert_eq!(recorder.delivered, vec![1, 2, 99]);
    assert!(cx.signals_before_draw.is_empty());
}

#[test]
fn before_and_after_queues_are_independent() {
    let mut cx = Cx::default();
    let s = cx.new_signal();
    cx.send_signal_before_draw(s, 1);
    cx.send_signal_after_draw(s, 2);
    let mut recorder = SignalRecorder { signal: s, delivered: Vec::new(), resend_payload: None };
    cx.call_signals_after_draw(&mut recorder);
    assert_eq!(recorder.delivered, vec![2]);
    assert_eq!(cx.signals_before_draw.len(), 1);
    cx.call_signals_before_draw(&mut recorder);
    assert_eq!(recorder.delivered, vec![2, 1]);
}

#[test]
fn draining_an_empty_queue_dispatches_nothing() {
    let mut cx = Cx::default();
    let s = cx.new_signal();
    let before = cx.event_id;
    let mut recorder = SignalRecorder { signal: s, delivered: Vec::new(), resend_payload: None };
    cx.call_signals_before_draw(&mut recorder);
    assert_eq!(recorder.delivered.len(), 0);
    assert_eq!(cx.event_id, before);
}
