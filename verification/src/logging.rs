//! How the service sets up its logging: which layers the subscriber gets,
//! in which order, and under which service name traces are exported.
use vstd::prelude::*;

verus! {

/// A layer of the tracing subscriber.
#[derive(PartialEq, Eq, Structural, Clone, Copy, Debug)]
pub enum LogLayer {
    /// Human-readable events written to standard error.
    StderrFmt,
    /// Spans exported to a Jaeger agent.
    Jaeger,
}

/// The logging configuration of a service.
pub struct Logging {
    /// The filter directive, such as `debug`.
    pub level: String,
    /// The name under which traces are exported.
    pub srv_name: String,
    /// Whether spans are exported to Jaeger.
    pub with_jaeger: bool,
}

/// The layers, in order, that a configuration installs.
pub open spec fn spec_layer_plan(with_jaeger: bool) -> Seq<LogLayer> {
    if with_jaeger {
        seq![LogLayer::StderrFmt, LogLayer::Jaeger, LogLayer::StderrFmt]
    } else {
        seq![LogLayer::StderrFmt, LogLayer::StderrFmt]
    }
}

impl Logging {
    pub fn new(level: String, srv_name: String, with_jaeger: bool) -> (res: Self)
        ensures
            res.level == level,
            res.srv_name == srv_name,
            res.with_jaeger == with_jaeger,
    {
        Logging { level, srv_name, with_jaeger }
    }

    /// The filter directive `init` installs the layers under: the
    /// configured level.
    pub fn filter_directive(&self) -> (res: String)
        ensures
            res@ == self.level@,
    {
        self.level.clone()
    }

    /// The layers that `init` installs under the filter `level`, in order:
    /// a standard-error layer, the Jaeger layer when it is enabled, and a
    /// second standard-error layer.
    pub fn layer_plan(&self) -> (res: Vec<LogLayer>)
        ensures
            res@ == spec_layer_plan(self.with_jaeger),
            res@.contains(LogLayer::Jaeger) <==> self.with_jaeger,
    {
        let mut layers = Vec::new();
        layers.push(LogLayer::StderrFmt);
        if self.with_jaeger {
            layers.push(LogLayer::Jaeger);
        }
        layers.push(LogLayer::StderrFmt);
        proof {
            if self.with_jaeger {
                assert(layers@[1] == LogLayer::Jaeger);
            } else {
                assert(layers@ =~= seq![LogLayer::StderrFmt, LogLayer::StderrFmt]);
            }
        }
        layers
    }
}

/// Every configuration writes to standard error first and last; the Jaeger
/// layer, when enabled, sits alone between them.
pub proof fn lemma_layer_plan_shape(with_jaeger: bool)
    ensures
        spec_layer_plan(with_jaeger).len() == (if with_jaeger { 3int } else { 2int }),
        spec_layer_plan(with_jaeger)[0] == LogLayer::StderrFmt,
        spec_layer_plan(with_jaeger).last() == LogLayer::StderrFmt,
        with_jaeger ==> spec_layer_plan(with_jaeger)[1] == LogLayer::Jaeger,
        forall|i: int| 0 <= i < spec_layer_plan(with_jaeger).len() && i != 1
            ==> #[trigger] spec_layer_plan(with_jaeger)[i] == LogLayer::StderrFmt,
{
}

/// The service name traces are exported under: the `APP_NAME` setting
/// where there is one, else `srv_name`.
pub fn resolve_service_name(app_name: Option<String>, srv_name: String) -> (res: String)
    ensures
        res@ == (match app_name {
            Some(name) => name@,
            None => srv_name@,
        }),
{
    match app_name {
        Some(name) => name,
        None => srv_name,
    }
}

/// The filter directive in force when `RUST_LOG` gives no valid one.
pub const DEFAULT_FILTER_DIRECTIVE: &'static str = "debug";

/// The filter in force: the one the `RUST_LOG` setting gives where it gives
/// a valid one, else `default_filter` (built from
/// [`DEFAULT_FILTER_DIRECTIVE`]).
pub fn resolve_filter<F>(from_env: Option<F>, default_filter: F) -> (res: F)
    ensures
        res == (match from_env {
            Some(f) => f,
            None => default_filter,
        }),
{
    match from_env {
        Some(f) => f,
        None => default_filter,
    }
}

} // verus!
