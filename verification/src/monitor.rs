//! The callback and metric framework, and the monitoring callback.
//!
//! A fitting loop drives its observers through three lifecycle hooks —
//! before, during and after each step — without knowing anything of what
//! they do.  [`MonitoringCallback`] is the concrete composite: it owns
//! evaluation data, an ordered registry of metrics and an ordered
//! registry of child callbacks, rebuilds a measurement table every
//! iteration, times each step, and can report one summary line per
//! iteration.

use std::io::Write;
use vstd::prelude::*;

use crate::eval::EvalData;
use crate::table::{table_insert, MeasureTable};

verus! {

#[verifier::external_type_specification]
#[verifier::external_body]
pub struct ExInstant(std::time::Instant);

/// Relies on `Instant::now` for the step timer; nothing is promised of
/// the clock.
#[verifier::external_body]
fn instant_now() -> std::time::Instant {
    std::time::Instant::now()
}

/// Relies on `Instant::elapsed`, rendering the time since `t` the way
/// std's duration formatting does; nothing is promised of the clock.
#[verifier::external_body]
fn render_elapsed(t: &std::time::Instant) -> String {
    format!("{:.2?}", t.elapsed())
}

/// Relies on `writeln!` to standard output to emit one report line.
/// A write error is discarded: reporting never aborts the fitting run.
#[verifier::external_body]
fn print_line(line: &String) {
    let _ = writeln!(std::io::stdout(), "{}", line);
}

/// The cluster count as a fixed-point measurement scalar: `n` scaled by
/// ten thousand, saturating at the largest representable scalar.
pub open spec fn spec_count_scalar(n: usize) -> i64 {
    if n * 10000 <= i64::MAX {
        (n * 10000) as i64
    } else {
        i64::MAX
    }
}

/// Scales the cluster count into a measurement scalar.
pub fn count_scalar(n: usize) -> (r: i64)
    ensures
        r == spec_count_scalar(n),
{
    if (n as u64) <= 922337203685477u64 {
        (n as i64) * 10000
    } else {
        i64::MAX
    }
}

/// A read-only view of a model's current fitted state: the one accessor
/// this crate's bookkeeping needs.  Parameters are shared read-only
/// with worker threads, so the type must be shareable across threads.
pub trait ThinParams: Sized + Send + Sync {
    /// The current number of clusters.
    spec fn spec_n_clusters(&self) -> usize;

    /// Returns the current number of clusters.
    fn n_clusters(&self) -> (n: usize)
        ensures
            n == self.spec_n_clusters(),
    ;
}

/// A parameter view with a fixed cluster count, for fitting loops whose
/// models are not yet wired in and for exercising callbacks.
pub struct FixedParams {
    /// The cluster count reported to every observer.
    pub k: usize,
}

impl ThinParams for FixedParams {
    open spec fn spec_n_clusters(&self) -> usize {
        self.k
    }

    fn n_clusters(&self) -> usize {
        self.k
    }
}

/// An observer of the fitting procedure.
///
/// The fitting loop calls, once per iteration and in this order,
/// `before_step`, then `during_step` with the freshly updated
/// parameters, then `after_step`, all on the same iteration index.
/// Every hook defaults to a no-op.
///
/// Hooks are only ever invoked from the coordinating thread, but a
/// callback rides inside a fitting loop that may be handed to a
/// multithreaded context, so the type must be shareable across threads.
pub trait Callback<P>: Send + Sync {
    /// Called before the work of step `i`.
    fn before_step(&mut self, i: usize) {
    }

    /// Called during step `i`, once the parameters are updated.
    fn during_step(&mut self, i: usize, params: &P) {
    }

    /// Called after the work of step `i`.
    fn after_step(&mut self, i: usize) {
    }
}

/// A named scalar measurement of the current model against evaluation
/// data.
///
/// `compute` may write any number of entries into `measurements`; it
/// must be deterministic in `data` and `params` and independent of the
/// order metrics run in, and it must not rely on entries other metrics
/// wrote.  Like a callback, the type must be shareable across threads
/// even though invocation is single-threaded.
pub trait Metric<P>: Send + Sync {
    /// Computes the metric for step `i` and records it.
    fn compute(&mut self, i: usize, data: &EvalData, params: &P, measurements: &mut MeasureTable);
}

/// A callback that monitors the fitting procedure: it keeps a
/// per-iteration measurement table fed by its metrics, forwards every
/// hook to its child callbacks in registration order, times each step,
/// and, when verbose, reports one line per iteration.
///
/// Each registry holds one implementing type; to mix several metric or
/// callback types in one registry, wrap them in an enum that
/// implements the trait by dispatching on its variants.
pub struct MonitoringCallback<P, M: Metric<P>, C: Callback<P>> {
    data: EvalData,
    metrics: Vec<M>,
    callbacks: Vec<C>,
    measures: MeasureTable,
    step_started: std::time::Instant,
    verbose: bool,
    _params: core::marker::PhantomData<P>,
}

impl<P, M: Metric<P>, C: Callback<P>> MonitoringCallback<P, M, C> {
    /// The entries of the measurement table, in insertion order.
    pub closed spec fn spec_measures(&self) -> Seq<(Seq<char>, i64)> {
        self.measures@
    }

    /// Whether a summary line is printed after each step.
    pub closed spec fn spec_verbose(&self) -> bool {
        self.verbose
    }

    /// The owned evaluation data.
    pub closed spec fn spec_data(&self) -> EvalData {
        self.data
    }

    /// The registered metrics, in registration order, which is the
    /// order `during_step` invokes them in.
    pub closed spec fn spec_metrics(&self) -> Seq<M> {
        self.metrics@
    }

    /// The registered child callbacks, in registration order, which is
    /// the order every hook forwards to them in.
    pub closed spec fn spec_callbacks(&self) -> Seq<C> {
        self.callbacks@
    }

    /// The number of registered metrics.
    pub closed spec fn spec_metrics_len(&self) -> nat {
        self.metrics@.len()
    }

    /// The number of registered child callbacks.
    pub closed spec fn spec_callbacks_len(&self) -> nat {
        self.callbacks@.len()
    }

    /// The instant the running step's timer was started at.
    pub closed spec fn spec_step_started(&self) -> std::time::Instant {
        self.step_started
    }

    /// Creates a monitoring callback owning `data`, with no metrics, no
    /// children, an empty measurement table, and verbosity off.
    pub fn from_data(data: EvalData) -> (r: Self)
        ensures
            r.spec_data() == data,
            r.spec_measures() == Seq::<(Seq<char>, i64)>::empty(),
            r.spec_metrics() == Seq::<M>::empty(),
            r.spec_callbacks() == Seq::<C>::empty(),
            !r.spec_verbose(),
    {
        MonitoringCallback {
            data,
            metrics: Vec::new(),
            callbacks: Vec::new(),
            measures: MeasureTable::new(),
            step_started: instant_now(),
            verbose: false,
            _params: core::marker::PhantomData,
        }
    }

    /// The measurement recorded under `name` this iteration, if any.
    pub fn measure(&self, name: &String) -> (r: Option<i64>)
        ensures
            r == crate::table::table_lookup(self.spec_measures(), name@),
    {
        self.measures.get(name)
    }

    /// The number of measurements recorded this iteration.
    pub fn num_measures(&self) -> (n: usize)
        ensures
            n == self.spec_measures().len(),
    {
        self.measures.len()
    }

    /// Registers a metric at the end of the metric registry; metrics
    /// run in registration order.  Nothing else of the callback's state
    /// changes.
    pub fn add_metric(&mut self, metric: M)
        ensures
            final(self).spec_metrics() == old(self).spec_metrics().push(metric),
            final(self).spec_callbacks() == old(self).spec_callbacks(),
            final(self).spec_measures() == old(self).spec_measures(),
            final(self).spec_data() == old(self).spec_data(),
            final(self).spec_verbose() == old(self).spec_verbose(),
            final(self).spec_step_started() == old(self).spec_step_started(),
    {
        self.metrics.push(metric);
    }

    /// Registers a child callback at the end of the child registry;
    /// children are forwarded to in registration order.  Nothing else
    /// of the callback's state changes.
    pub fn add_callback(&mut self, callback: C)
        ensures
            final(self).spec_callbacks() == old(self).spec_callbacks().push(callback),
            final(self).spec_metrics() == old(self).spec_metrics(),
            final(self).spec_measures() == old(self).spec_measures(),
            final(self).spec_data() == old(self).spec_data(),
            final(self).spec_verbose() == old(self).spec_verbose(),
            final(self).spec_step_started() == old(self).spec_step_started(),
    {
        self.callbacks.push(callback);
    }

    /// Sets whether a summary line is printed after each step.
    /// Nothing else of the callback's state changes.
    pub fn set_verbose(&mut self, verbose: bool)
        ensures
            final(self).spec_verbose() == verbose,
            final(self).spec_metrics() == old(self).spec_metrics(),
            final(self).spec_callbacks() == old(self).spec_callbacks(),
            final(self).spec_measures() == old(self).spec_measures(),
            final(self).spec_data() == old(self).spec_data(),
            final(self).spec_step_started() == old(self).spec_step_started(),
    {
        self.verbose = verbose;
    }
}

impl<P: ThinParams, M: Metric<P>, C: Callback<P>> Callback<P> for MonitoringCallback<P, M, C> {
    /// Clears the measurement table, forwards to the children, and then
    /// starts the step timer, so child setup cost is excluded from the
    /// reported time.  Whatever the table held before, it is empty when
    /// the step's work begins.  The metric registry is untouched; the
    /// child registry keeps its length, but each child's own state may
    /// change under its hook, so no more can be said of its entries.
    fn before_step(&mut self, i: usize)
        ensures
            final(self).spec_measures() == Seq::<(Seq<char>, i64)>::empty(),
            final(self).spec_data() == old(self).spec_data(),
            final(self).spec_verbose() == old(self).spec_verbose(),
            final(self).spec_metrics() == old(self).spec_metrics(),
            final(self).spec_callbacks_len() == old(self).spec_callbacks_len(),
    {
        let ghost data0 = self.data;
        let ghost verbose0 = self.verbose;
        let ghost metrics0 = self.metrics@;
        self.measures.clear();
        let n = self.callbacks.len();
        let mut idx: usize = 0;
        while idx < n
            invariant
                idx <= n,
                n == self.callbacks@.len(),
                self.measures@ == Seq::<(Seq<char>, i64)>::empty(),
                self.data == data0,
                self.verbose == verbose0,
                self.metrics@ == metrics0,
            decreases n - idx,
        {
            self.callbacks[idx].before_step(i);
            idx += 1;
        }
        self.step_started = instant_now();
    }

    /// Records the current cluster count under the name `k`, lets every
    /// metric add its measurements, and forwards to the children.  With
    /// no metrics registered the table afterwards is exactly the prior
    /// table with `k` recorded.  The data, the flag and the timer are
    /// untouched; both registries keep their lengths, but metrics and
    /// children may change their own state under their hooks, so no
    /// more can be said of their entries.
    fn during_step(&mut self, i: usize, params: &P)
        ensures
            final(self).spec_data() == old(self).spec_data(),
            final(self).spec_verbose() == old(self).spec_verbose(),
            final(self).spec_step_started() == old(self).spec_step_started(),
            final(self).spec_metrics_len() == old(self).spec_metrics_len(),
            final(self).spec_callbacks_len() == old(self).spec_callbacks_len(),
            old(self).spec_metrics_len() == 0 ==> final(self).spec_measures() == table_insert(
                old(self).spec_measures(),
                "k"@,
                spec_count_scalar(params.spec_n_clusters()),
            ),
    {
        let ghost data0 = self.data;
        let ghost verbose0 = self.verbose;
        let ghost started0 = self.step_started;
        let ghost metrics0 = self.metrics@;
        let ghost ncb = self.callbacks@.len();
        let name: String = "k".to_owned();
        let scalar = count_scalar(params.n_clusters());
        self.measures.insert(name, scalar);
        let ghost measures1 = self.measures@;
        let nm = self.metrics.len();
        let mut idx: usize = 0;
        while idx < nm
            invariant
                idx <= nm,
                nm == self.metrics@.len(),
                self.data == data0,
                self.verbose == verbose0,
                self.step_started == started0,
                self.callbacks@.len() == ncb,
                nm == 0 ==> self.metrics@ == metrics0,
                nm == 0 ==> self.measures@ == measures1,
            decreases nm - idx,
        {
            let metric = &mut self.metrics[idx];
            metric.compute(i, &self.data, params, &mut self.measures);
            idx += 1;
        }
        let n = self.callbacks.len();
        let mut idx: usize = 0;
        while idx < n
            invariant
                idx <= n,
                n == self.callbacks@.len(),
                self.data == data0,
                self.verbose == verbose0,
                self.step_started == started0,
                self.metrics@.len() == nm,
                nm == 0 ==> self.metrics@ == metrics0,
                nm == 0 ==> self.measures@ == measures1,
            decreases n - idx,
        {
            self.callbacks[idx].during_step(i, params);
            idx += 1;
        }
    }

    /// Forwards to the children and, when verbose, reports the
    /// iteration index, the elapsed step time and every measurement on
    /// one line.  The measurement table is left as the step filled it;
    /// the data, the flag, the timer and the metric registry are
    /// untouched; the child registry keeps its length, but each child's
    /// own state may change under its hook, so no more can be said of
    /// its entries.
    fn after_step(&mut self, i: usize)
        ensures
            final(self).spec_measures() == old(self).spec_measures(),
            final(self).spec_data() == old(self).spec_data(),
            final(self).spec_verbose() == old(self).spec_verbose(),
            final(self).spec_step_started() == old(self).spec_step_started(),
            final(self).spec_metrics() == old(self).spec_metrics(),
            final(self).spec_callbacks_len() == old(self).spec_callbacks_len(),
    {
        let ghost data0 = self.data;
        let ghost verbose0 = self.verbose;
        let ghost started0 = self.step_started;
        let ghost metrics0 = self.metrics@;
        let ghost measures0 = self.measures@;
        let n = self.callbacks.len();
        let mut idx: usize = 0;
        while idx < n
            invariant
                idx <= n,
                n == self.callbacks@.len(),
                self.data == data0,
                self.verbose == verbose0,
                self.step_started == started0,
                self.metrics@ == metrics0,
                self.measures@ == measures0,
            decreases n - idx,
        {
            self.callbacks[idx].after_step(i);
            idx += 1;
        }
        if self.verbose {
            let elapsed = render_elapsed(&self.step_started);
            let line = render_summary(i, &elapsed, &self.measures);
            print_line(&line);
        }
    }
}

/// The decimal digit `d` as a character.
pub open spec fn dec_digit(d: int) -> char {
    if d == 0 {
        '0'
    } else if d == 1 {
        '1'
    } else if d == 2 {
        '2'
    } else if d == 3 {
        '3'
    } else if d == 4 {
        '4'
    } else if d == 5 {
        '5'
    } else if d == 6 {
        '6'
    } else if d == 7 {
        '7'
    } else if d == 8 {
        '8'
    } else {
        '9'
    }
}

/// The decimal text of `n`, most significant digit first.
pub open spec fn dec_rep(n: nat) -> Seq<char>
    decreases n,
{
    if n < 10 {
        seq![dec_digit(n as int)]
    } else {
        dec_rep(n / 10).push(dec_digit((n % 10) as int))
    }
}

/// The decimal digit `d` as text.
fn digit_str(d: usize) -> (r: &'static str)
    requires
        d < 10,
    ensures
        r@ == seq![dec_digit(d as int)],
{
    let r: &'static str = if d == 0 {
        "0"
    } else if d == 1 {
        "1"
    } else if d == 2 {
        "2"
    } else if d == 3 {
        "3"
    } else if d == 4 {
        "4"
    } else if d == 5 {
        "5"
    } else if d == 6 {
        "6"
    } else if d == 7 {
        "7"
    } else if d == 8 {
        "8"
    } else {
        "9"
    };
    proof {
        reveal_strlit("0");
        reveal_strlit("1");
        reveal_strlit("2");
        reveal_strlit("3");
        reveal_strlit("4");
        reveal_strlit("5");
        reveal_strlit("6");
        reveal_strlit("7");
        reveal_strlit("8");
        reveal_strlit("9");
        assert(r@ =~= seq![dec_digit(d as int)]);
    }
    r
}

/// Renders `n` in decimal.
pub fn u64_to_string(n: u64) -> (r: String)
    ensures
        r@ == dec_rep(n as nat),
    decreases n,
{
    if n < 10 {
        let mut s = String::new();
        s.append(digit_str((n % 10) as usize));
        proof {
            assert(s@ =~= dec_rep(n as nat));
        }
        s
    } else {
        let mut s = u64_to_string(n / 10);
        s.append(digit_str((n % 10) as usize));
        proof {
            assert(s@ =~= dec_rep(n as nat));
        }
        s
    }
}

/// The fixed-point scalar `v` rendered with four digits after the
/// point, as the monitoring report prints it.
pub open spec fn fixed4_of(v: i64) -> Seq<char> {
    let mag = if v >= 0 {
        v as int
    } else {
        -(v as int)
    };
    let sign: Seq<char> = if v < 0 {
        seq!['-']
    } else {
        Seq::<char>::empty()
    };
    sign + dec_rep((mag / 10000) as nat) + seq!['.'] + seq![
        dec_digit(mag / 1000 % 10),
        dec_digit(mag / 100 % 10),
        dec_digit(mag / 10 % 10),
        dec_digit(mag % 10),
    ]
}

/// Renders a fixed-point measurement scalar with four digits after the
/// point.
#[verifier::rlimit(60)]
pub fn render_scalar(v: i64) -> (r: String)
    ensures
        r@ == fixed4_of(v),
{
    let mag: u64 = if v >= 0 {
        v as u64
    } else {
        (-(v as i128)) as u64
    };
    proof {
        assert(mag as int == if v >= 0 { v as int } else { -(v as int) });
    }
    let mut s = String::new();
    if v < 0 {
        s.append("-");
        proof {
            reveal_strlit("-");
            assert("-"@ =~= seq!['-']);
        }
    }
    let ghost sign = s@;
    let units = u64_to_string(mag / 10000);
    s.append(units.as_str());
    s.append(".");
    proof {
        reveal_strlit(".");
        assert("."@ =~= seq!['.']);
        assert(s@ == sign + dec_rep((mag / 10000) as nat) + "."@);
    }
    let d3 = (mag / 1000) % 10;
    let d2 = (mag / 100) % 10;
    let d1 = (mag / 10) % 10;
    let d0 = mag % 10;
    s.append(digit_str(d3 as usize));
    s.append(digit_str(d2 as usize));
    s.append(digit_str(d1 as usize));
    s.append(digit_str(d0 as usize));
    proof {
        let m = mag as int;
        assert(s@ == sign + dec_rep((mag / 10000) as nat) + "."@ + seq![dec_digit(d3 as int)]
            + seq![dec_digit(d2 as int)] + seq![dec_digit(d1 as int)] + seq![
            dec_digit(d0 as int),
        ]);
        assert(d3 as int == m / 1000 % 10 && d2 as int == m / 100 % 10 && d1 as int == m / 10 % 10
            && d0 as int == m % 10);
        assert(s@ =~= fixed4_of(v));
    }
    s
}

/// One measurement rendered as `name=value`.
pub open spec fn entry_view(e: (Seq<char>, i64)) -> Seq<char> {
    e.0 + seq!['='] + fixed4_of(e.1)
}

/// The first `i` measurements rendered in order, joined by `, `.
pub open spec fn entries_view_to(s: Seq<(Seq<char>, i64)>, i: int) -> Seq<char>
    decreases i,
{
    if i <= 0 {
        Seq::<char>::empty()
    } else if i == 1 {
        entry_view(s[0])
    } else {
        entries_view_to(s, i - 1) + seq![',', ' '] + entry_view(s[i - 1])
    }
}

/// The whole summary line for iteration `i`: the iteration index, the
/// elapsed time, and every measurement.
pub open spec fn summary_view(i: nat, elapsed: Seq<char>, entries: Seq<(Seq<char>, i64)>) -> Seq<
    char,
> {
    "Run iteration "@ + dec_rep(i) + " in "@ + elapsed + "; "@ + entries_view_to(
        entries,
        entries.len() as int,
    )
}

/// Renders the per-iteration summary line from the iteration index, the
/// rendered elapsed time and the measurement table.
pub fn render_summary(i: usize, elapsed: &String, table: &MeasureTable) -> (r: String)
    ensures
        r@ == summary_view(i as nat, elapsed@, table@),
{
    let mut s = String::new();
    s.append("Run iteration ");
    let num = u64_to_string(i as u64);
    s.append(num.as_str());
    s.append(" in ");
    s.append(elapsed.as_str());
    s.append("; ");
    let ghost base = s@;
    proof {
        assert(base =~= "Run iteration "@ + dec_rep(i as nat) + " in "@ + elapsed@ + "; "@);
    }
    let n = table.len();
    let mut idx: usize = 0;
    while idx < n
        invariant
            idx <= n,
            n == table@.len(),
            s@ == base + entries_view_to(table@, idx as int),
        decreases n - idx,
    {
        if idx > 0 {
            s.append(", ");
            proof {
                reveal_strlit(", ");
                assert(", "@ =~= seq![',', ' ']);
            }
        }
        s.append(table.entry_name(idx).as_str());
        s.append("=");
        proof {
            reveal_strlit("=");
            assert("="@ =~= seq!['=']);
        }
        let value = render_scalar(table.entry_value(idx));
        s.append(value.as_str());
        proof {
            assert(s@ =~= base + entries_view_to(table@, idx + 1));
        }
        idx += 1;
    }
    proof {
        assert(s@ =~= summary_view(i as nat, elapsed@, table@));
    }
    s
}

} // verus!
