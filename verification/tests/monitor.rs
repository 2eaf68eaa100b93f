use gaw_app::monitor::{
    capture_plan, CaptureConfig, CapturePlan, InputMonitoring, OpenRequest, OpenResult,
    OpenedInput, OutputFormat, ReadyInput,
};

/// A monitor with the requests it sent and the answers that wait for it.
struct Bench {
    monitor: InputMonitoring,
    requests: Vec<OpenRequest>,
    results: Vec<OpenResult>,
}

impl Bench {
    fn new() -> Self {
        Self { monitor: InputMonitoring::new(), requests: Vec::new(), results: Vec::new() }
    }

    fn configure(&mut self, device: Option<&str>, channel: usize, enabled: bool) {
        let request = self.monitor.configure(device.map(str::to_string), channel, enabled);
        self.requests.extend(request);
    }

    fn configure_effects(&mut self, effects: u64) {
        let request = self.monitor.configure_effects(effects);
        self.requests.extend(request);
    }

    fn suspend(&mut self) {
        let request = self.monitor.suspend();
        self.requests.push(request);
    }

    fn pump(&mut self, output: Option<OutputFormat>) {
        let request = self.monitor.retarget(output);
        self.requests.extend(request);
        for result in std::mem::take(&mut self.results) {
            let request = self.monitor.complete(result);
            self.requests.extend(request);
        }
    }

    fn last_request(&mut self) -> OpenRequest {
        let request = self.requests.pop().unwrap();
        self.requests.clear();
        request
    }
}

fn output(sample_rate: u32) -> OutputFormat {
    OutputFormat { sample_rate, buffer_frames: Some(128) }
}

fn opened(generation: u64) -> OpenResult {
    OpenResult {
        generation,
        result: Ok(OpenedInput {
            input: ReadyInput { device_name: "Guitar".into(), channels: 2 },
            effects_error: None,
        }),
    }
}

#[test]
fn monitoring_waits_for_output_and_uses_negotiated_format() {
    let mut bench = Bench::new();
    assert!(!bench.monitor.status().enabled);
    bench.configure(None, 1, true);
    assert!(bench.requests.remove(0).output.is_none());
    bench.pump(None);
    assert!(bench.monitor.status().opening);
    assert!(!bench.monitor.audible);
    assert!(bench.requests.is_empty());
    bench.pump(Some(output(48_000)));
    let request = bench.requests.remove(0);
    assert_eq!(request.output, Some(output(48_000)));
    assert_eq!(request.channel, 1);
    bench.results.push(opened(request.generation));
    bench.pump(Some(output(48_000)));
    assert!(bench.monitor.audible);
    assert!(!bench.monitor.status().opening);
    assert_eq!(bench.monitor.status().device_name.as_deref(), Some("Guitar"));
}

#[test]
fn disabling_rejects_an_open_that_finishes_late() {
    let mut bench = Bench::new();
    bench.configure(None, 0, true);
    bench.pump(Some(output(48_000)));
    let pending = bench.last_request();
    bench.configure(None, 0, false);
    assert!(!bench.monitor.audible);
    bench.results.push(opened(pending.generation));
    bench.pump(Some(output(48_000)));
    assert!(!bench.monitor.status().enabled);
    assert!(!bench.monitor.status().opening);
    assert!(!bench.monitor.audible);
    assert!(bench.monitor.status().device_name.is_none());
}

#[test]
fn changing_input_while_opening_rejects_old_device_and_keeps_exact_selection() {
    let mut bench = Bench::new();
    bench.configure(None, 0, true);
    bench.pump(Some(output(48_000)));
    let original = bench.last_request();
    bench.configure(Some("guitar-interface"), 1, true);
    bench.pump(Some(output(48_000)));
    let replacement = bench.last_request();
    assert_eq!(replacement.device.as_deref(), Some("guitar-interface"));
    assert_eq!(replacement.channel, 1);
    bench.results.push(opened(original.generation));
    bench.pump(Some(output(48_000)));
    assert!(!bench.monitor.audible);
    assert!(bench.monitor.status().opening);
    bench.results.push(opened(replacement.generation));
    bench.pump(Some(output(48_000)));
    assert!(bench.monitor.audible);
}

#[test]
fn adjusting_gain_does_not_reopen_an_active_input() {
    let mut bench = Bench::new();
    bench.configure(None, 0, true);
    bench.pump(Some(output(48_000)));
    let original = bench.last_request();
    bench.results.push(opened(original.generation));
    bench.pump(Some(output(48_000)));
    bench.configure(None, 0, true);
    bench.pump(Some(output(48_000)));
    assert!(bench.requests.is_empty());
    assert_eq!(bench.monitor.generation, original.generation);
    assert!(bench.monitor.audible);
    assert!(!bench.monitor.status().opening);
}

#[test]
fn effect_edits_keep_monitoring_active_and_ignore_superseded_results() {
    let mut bench = Bench::new();
    bench.configure(None, 1, true);
    bench.pump(Some(output(48_000)));
    let original = bench.last_request();
    bench.results.push(opened(original.generation));
    bench.pump(Some(output(48_000)));
    let heard = 1;
    let bypassed = 2;
    bench.configure_effects(heard);
    let first = bench.requests.remove(0);
    assert!(bench.monitor.audible);
    assert!(!bench.monitor.status().opening);
    assert!(bench.monitor.effects_status().0);
    assert_eq!(first.effects, heard);
    assert_eq!(first.channel, original.channel);
    assert_eq!(first.output, original.output);
    bench.configure_effects(bypassed);
    let latest = bench.requests.remove(0);
    bench.results.push(opened(first.generation));
    bench.pump(Some(output(48_000)));
    assert!(bench.monitor.effects_status().0);
    let mut completed = opened(latest.generation);
    completed.result.as_mut().unwrap().effects_error = Some("Could not prepare effect".into());
    bench.results.push(completed);
    bench.pump(Some(output(48_000)));
    assert!(!bench.monitor.effects_status().0);
    assert!(bench.monitor.effects_status().1.is_some());
    assert!(bench.monitor.audible);
    assert!(bench.monitor.status().error.is_none());
    bench.configure_effects(bypassed);
    assert!(bench.requests.is_empty(), "unchanged effects must not be prepared again");
}

#[test]
fn effects_wait_for_output_and_survive_monitor_and_sample_rate_changes() {
    let mut bench = Bench::new();
    bench.configure_effects(7);
    assert!(bench.requests.is_empty());
    bench.configure(None, 0, true);
    bench.pump(Some(output(44_100)));
    let original = bench.last_request();
    assert_eq!(original.effects, 7);
    bench.results.push(opened(original.generation));
    bench.pump(Some(output(44_100)));
    bench.suspend();
    assert!(!bench.monitor.effects_status().0);
    bench.pump(Some(output(48_000)));
    let recovered = bench.last_request();
    assert_eq!(recovered.effects, original.effects);
    assert_eq!(recovered.output, Some(output(48_000)));
}

#[test]
fn output_recovery_mutes_and_reopens_at_new_rate() {
    let mut bench = Bench::new();
    bench.configure(None, 0, true);
    bench.pump(Some(output(44_100)));
    let original = bench.last_request();
    bench.results.push(opened(original.generation));
    bench.pump(Some(output(44_100)));
    assert!(bench.monitor.audible);
    bench.suspend();
    assert!(!bench.monitor.audible);
    assert!(bench.monitor.status().enabled);
    bench.pump(Some(output(48_000)));
    let replacement = bench.last_request();
    assert_eq!(replacement.output, Some(output(48_000)));
    bench.results.push(opened(original.generation));
    bench.pump(Some(output(48_000)));
    assert!(!bench.monitor.audible);
    bench.results.push(opened(replacement.generation));
    bench.pump(Some(output(48_000)));
    assert!(bench.monitor.audible);
}

#[test]
fn failed_input_requires_explicit_retry_and_stale_errors_are_ignored() {
    let mut bench = Bench::new();
    bench.configure(None, 0, true);
    bench.pump(Some(output(48_000)));
    let pending = bench.last_request();
    bench.results.push(OpenResult {
        generation: pending.generation,
        result: Err("Input disconnected".into()),
    });
    bench.pump(Some(output(48_000)));
    assert!(!bench.monitor.status().enabled);
    assert!(!bench.monitor.audible);
    assert!(bench.monitor.status().error.unwrap().contains("Toggle monitoring on to retry"));
    bench.configure(None, 0, true);
    bench.pump(Some(output(48_000)));
    let retry = bench.last_request();
    bench.results.push(OpenResult {
        generation: pending.generation,
        result: Err("Old failure".into()),
    });
    bench.results.push(opened(retry.generation));
    bench.pump(Some(output(48_000)));
    assert!(bench.monitor.status().enabled);
    assert!(bench.monitor.status().error.is_none());
    assert!(bench.monitor.audible);
}

#[test]
fn a_stopped_worker_ends_monitoring() {
    let mut bench = Bench::new();
    bench.configure(None, 0, true);
    bench.monitor.worker_stopped();
    assert!(!bench.monitor.status().opening);
    assert!(!bench.monitor.audible);
    assert!(bench.monitor.status().error.is_some());
}

#[test]
fn an_input_is_reopened_only_where_something_changed() {
    let mut bench = Bench::new();
    bench.configure(Some("guitar"), 1, true);
    bench.pump(Some(output(48_000)));
    let request = bench.last_request();
    let same = CaptureConfig {
        device: Some("guitar".to_string()),
        channel: 1,
        output: output(48_000),
    };
    assert_eq!(capture_plan(&Some(same), &request), CapturePlan::Keep);
    let other = CaptureConfig {
        device: Some("guitar".to_string()),
        channel: 0,
        output: output(48_000),
    };
    assert_eq!(capture_plan(&Some(other), &request), CapturePlan::Reopen);
    assert_eq!(capture_plan(&None, &request), CapturePlan::Reopen);
    bench.suspend();
    let closing = bench.last_request();
    assert_eq!(capture_plan(&None, &closing), CapturePlan::Close);
}
