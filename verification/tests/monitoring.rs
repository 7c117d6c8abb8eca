use std::sync::{Arc, Mutex};

use mixturs::eval::{EvalData, Matrix};
use mixturs::monitor::{
    render_scalar, render_summary, u64_to_string, Callback, FixedParams, Metric,
    MonitoringCallback,
};
use mixturs::table::MeasureTable;

fn tiny_eval_data() -> EvalData {
    EvalData { points: Matrix { nrows: 1, cols: vec![vec![1]] }, labels: None }
}

struct NoMetric;

impl Metric<FixedParams> for NoMetric {
    fn compute(
        &mut self,
        _i: usize,
        _data: &EvalData,
        _params: &FixedParams,
        _measurements: &mut MeasureTable,
    ) {
    }
}

struct LossMetric;

impl Metric<FixedParams> for LossMetric {
    fn compute(
        &mut self,
        _i: usize,
        _data: &EvalData,
        _params: &FixedParams,
        measurements: &mut MeasureTable,
    ) {
        // The constant 1.0, in the table's ten-thousandths fixed-point form.
        measurements.insert("loss".to_string(), 10000);
    }
}

struct Recorder {
    log: Vec<(&'static str, usize)>,
}

impl Callback<FixedParams> for Recorder {
    fn before_step(&mut self, i: usize) {
        self.log.push(("before", i));
    }

    fn during_step(&mut self, i: usize, _params: &FixedParams) {
        self.log.push(("during", i));
    }

    fn after_step(&mut self, i: usize) {
        self.log.push(("after", i));
    }
}

#[test]
fn callback_hooks_run_in_order() {
    let mut r = Recorder { log: Vec::new() };
    let params = FixedParams { k: 2 };
    for i in 0..3 {
        r.before_step(i);
        r.during_step(i, &params);
        r.after_step(i);
    }
    assert_eq!(
        r.log,
        vec![
            ("before", 0),
            ("during", 0),
            ("after", 0),
            ("before", 1),
            ("during", 1),
            ("after", 1),
            ("before", 2),
            ("during", 2),
            ("after", 2),
        ]
    );
}

struct SharedRecorder {
    id: usize,
    log: Arc<Mutex<Vec<(usize, &'static str, usize)>>>,
}

impl Callback<FixedParams> for SharedRecorder {
    fn before_step(&mut self, i: usize) {
        self.log.lock().unwrap().push((self.id, "before", i));
    }

    fn during_step(&mut self, i: usize, _params: &FixedParams) {
        self.log.lock().unwrap().push((self.id, "during", i));
    }

    fn after_step(&mut self, i: usize) {
        self.log.lock().unwrap().push((self.id, "after", i));
    }
}

#[test]
fn children_are_forwarded_to_in_registration_order() {
    let log = Arc::new(Mutex::new(Vec::new()));
    let mut mc: MonitoringCallback<FixedParams, NoMetric, SharedRecorder> =
        MonitoringCallback::from_data(tiny_eval_data());
    mc.add_callback(SharedRecorder { id: 0, log: log.clone() });
    mc.add_callback(SharedRecorder { id: 1, log: log.clone() });
    let params = FixedParams { k: 1 };
    mc.before_step(0);
    mc.during_step(0, &params);
    mc.after_step(0);
    assert_eq!(
        *log.lock().unwrap(),
        vec![
            (0, "before", 0),
            (1, "before", 0),
            (0, "during", 0),
            (1, "during", 0),
            (0, "after", 0),
            (1, "after", 0),
        ]
    );
}

#[test]
fn before_step_clears_measurements() {
    let mut mc: MonitoringCallback<FixedParams, NoMetric, Recorder> =
        MonitoringCallback::from_data(tiny_eval_data());
    let params = FixedParams { k: 2 };
    mc.before_step(0);
    mc.during_step(0, &params);
    assert_eq!(mc.measure(&"k".to_string()), Some(20000));
    assert_eq!(mc.num_measures(), 1);
    mc.before_step(1);
    assert_eq!(mc.num_measures(), 0, "the table must be empty whatever it held before");
    assert_eq!(mc.measure(&"k".to_string()), None);
}

#[test]
fn monitoring_records_metrics_and_reports() {
    let mut mc: MonitoringCallback<FixedParams, LossMetric, Recorder> =
        MonitoringCallback::from_data(tiny_eval_data());
    mc.add_metric(LossMetric);
    mc.set_verbose(true);
    let params = FixedParams { k: 2 };
    mc.before_step(0);
    mc.during_step(0, &params);
    mc.after_step(0);
    assert_eq!(mc.measure(&"k".to_string()), Some(20000));
    assert_eq!(mc.measure(&"loss".to_string()), Some(10000));

    // The report line, rendered from the same table contents.
    let mut t = MeasureTable::new();
    t.insert("k".to_string(), 20000);
    t.insert("loss".to_string(), 10000);
    let line = render_summary(0, &"1.23ms".to_string(), &t);
    assert_eq!(line, "Run iteration 0 in 1.23ms; k=2.0000, loss=1.0000");
    assert!(line.contains("k="));
    assert!(line.contains("loss=1.0000"));
}

#[test]
fn measure_table_inserts_and_overwrites() {
    let mut t = MeasureTable::new();
    assert_eq!(t.len(), 0);
    t.insert("a".to_string(), 1);
    t.insert("b".to_string(), 2);
    assert_eq!(t.len(), 2);
    t.insert("a".to_string(), 3);
    assert_eq!(t.len(), 2, "overwriting a name must not add an entry");
    assert_eq!(t.get(&"a".to_string()), Some(3));
    assert_eq!(t.get(&"b".to_string()), Some(2));
    assert_eq!(t.get(&"c".to_string()), None);
    t.clear();
    assert_eq!(t.len(), 0);
    assert_eq!(t.get(&"a".to_string()), None);
}

#[test]
fn scalar_and_number_rendering() {
    assert_eq!(u64_to_string(0), "0");
    assert_eq!(u64_to_string(907), "907");
    assert_eq!(u64_to_string(1000000), "1000000");
    assert_eq!(render_scalar(0), "0.0000");
    assert_eq!(render_scalar(12345), "1.2345");
    assert_eq!(render_scalar(-10000), "-1.0000");
    assert_eq!(render_scalar(9990001), "999.0001");
    assert_eq!(render_scalar(7), "0.0007");
}
