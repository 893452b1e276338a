//! Data manifests and the simulator's typed errors.
use vstd::prelude::*;

use crate::decimal::nat_text;
use crate::types::{EngineType, InstrumentId, Timestamp};

verus! {

/// Which payload classes an instrument/engine pair requires, accepts, or can derive.
#[derive(Clone, Debug)]
pub struct DataManifest {
    pub instrument_id: InstrumentId,
    pub engine: EngineType,
    pub required: Vec<String>,
    pub optional: Vec<String>,
    pub provide_or_derive: Vec<String>,
}

/// The required resolution differs from the available one.
#[derive(Clone, Copy, Debug, PartialEq, Eq, Structural)]
pub struct ResolutionConflict {
    pub required_interval_secs: u64,
    pub available_interval_secs: u64,
}

/// Reduced fidelity because optional data is missing.
#[derive(Clone, Debug)]
pub struct FidelityWarning {
    pub missing_payload_class: String,
    pub fidelity_impact: String,
}

/// Every error of the simulator. Bad run requests are rejected with these.
#[derive(Clone, Debug)]
pub enum SimError {
    /// Required payloads are missing from the event stream.
    ManifestViolation {
        instrument_id: InstrumentId,
        engine: EngineType,
        missing_required: Vec<String>,
        warning_optional: Vec<String>,
    },
    /// The data is present but insufficient.
    DataSufficiencyError {
        instrument_id: InstrumentId,
        engine: EngineType,
        missing_required: Vec<String>,
        non_derivable_conflicts: Vec<ResolutionConflict>,
        degraded_fidelity: Vec<FidelityWarning>,
    },
    /// A required port was not injected.
    PortMissing(String),
    /// A malformed request, inconsistent flags, and the like.
    ValidationError(String),
    /// A strategy or model tried to observe future data.
    LookAheadViolation { ts: Timestamp, feature_ts: Timestamp },
    /// No engine exists yet for the requested price formation.
    EngineNotImplemented(String),
}

/// A simulator error with its strings as character sequences.
pub enum SimErrorView {
    ManifestViolation {
        instrument_id: Seq<char>,
        engine: EngineType,
        missing_required: Seq<Seq<char>>,
        warning_optional: Seq<Seq<char>>,
    },
    DataSufficiencyError {
        instrument_id: Seq<char>,
        engine: EngineType,
        missing_required: Seq<Seq<char>>,
        non_derivable_conflicts: Seq<ResolutionConflict>,
        degraded_fidelity: Seq<(Seq<char>, Seq<char>)>,
    },
    PortMissing(Seq<char>),
    ValidationError(Seq<char>),
    LookAheadViolation { ts: Timestamp, feature_ts: Timestamp },
    EngineNotImplemented(Seq<char>),
}

/// The strings as character sequences.
pub open spec fn strings_view(v: Seq<String>) -> Seq<Seq<char>> {
    v.map_values(|s: String| s@)
}

impl SimError {
    pub open spec fn view(&self) -> SimErrorView {
        match self {
            SimError::ManifestViolation { instrument_id, engine, missing_required, warning_optional } => SimErrorView::ManifestViolation {
                instrument_id: instrument_id@,
                engine: *engine,
                missing_required: strings_view(missing_required@),
                warning_optional: strings_view(warning_optional@),
            },
            SimError::DataSufficiencyError { instrument_id, engine, missing_required, non_derivable_conflicts, degraded_fidelity } => SimErrorView::DataSufficiencyError {
                instrument_id: instrument_id@,
                engine: *engine,
                missing_required: strings_view(missing_required@),
                non_derivable_conflicts: non_derivable_conflicts@,
                degraded_fidelity: degraded_fidelity@.map_values(|w: FidelityWarning| (w.missing_payload_class@, w.fidelity_impact@)),
            },
            SimError::PortMissing(s) => SimErrorView::PortMissing(s@),
            SimError::ValidationError(s) => SimErrorView::ValidationError(s@),
            SimError::LookAheadViolation { ts, feature_ts } => SimErrorView::LookAheadViolation { ts: *ts, feature_ts: *feature_ts },
            SimError::EngineNotImplemented(s) => SimErrorView::EngineNotImplemented(s@),
        }
    }
}

/// What `Display` writes for an `i64`: a minus sign when negative, then the
/// decimal digits of its magnitude (a zero for zero).
pub open spec fn i64_text(n: i64) -> Seq<char> {
    if n < 0 {
        seq!['-'] + nat_text((-n) as nat)
    } else {
        nat_text(n as nat)
    }
}

/// `i64::to_string`; the text is that of [`i64_text`].
#[verifier::external_body]
pub(crate) fn i64_to_string(n: i64) -> (r: String)
    ensures
        r@ == i64_text(n),
{
    n.to_string()
}

/// What `Debug` writes for a string: the text quoted, with escapes.
pub uninterp spec fn str_debug(s: Seq<char>) -> Seq<char>;

/// `Debug` formatting of a string (`format!("{:?}", s)`); the text is the named one.
#[verifier::external_body]
pub(crate) fn debug_quoted(s: &String) -> (r: String)
    ensures
        r@ == str_debug(s@),
{
    format!("{:?}", s)
}

/// The items of a list of strings as `Debug` writes them, separated by `, `.
pub open spec fn debug_items(s: Seq<Seq<char>>) -> Seq<char>
    decreases s.len(),
{
    if s.len() == 0 {
        Seq::empty()
    } else if s.len() == 1 {
        str_debug(s[0])
    } else {
        debug_items(s.drop_last()) + ", "@ + str_debug(s.last())
    }
}

/// A list of strings as `Debug` writes it: `[` + the items + `]`.
pub open spec fn debug_list_text(s: Seq<Seq<char>>) -> Seq<char> {
    "["@ + debug_items(s) + "]"@
}

/// The message of an error.
pub open spec fn error_text(e: SimErrorView) -> Seq<char> {
    match e {
        SimErrorView::ManifestViolation { instrument_id, missing_required, .. } => "manifest violation for "@ + instrument_id
            + ": missing required payloads: "@ + debug_list_text(missing_required),
        SimErrorView::DataSufficiencyError { instrument_id, .. } => "data sufficiency error for "@ + instrument_id,
        SimErrorView::PortMissing(s) => "port missing: "@ + s,
        SimErrorView::ValidationError(s) => "validation error: "@ + s,
        SimErrorView::LookAheadViolation { ts, feature_ts } => "look-ahead violation at ts="@ + i64_text(ts)
            + ": feature ts_event="@ + i64_text(feature_ts) + " > current_ts"@,
        SimErrorView::EngineNotImplemented(s) => "engine not implemented for price_formation: "@ + s,
    }
}

fn debug_list(v: &Vec<String>) -> (r: String)
    ensures
        r@ == debug_list_text(strings_view(v@)),
{
    let ghost sv = strings_view(v@);
    let mut out = String::new();
    let mut i: usize = 0;
    proof {
        assert(sv.take(0) =~= Seq::<Seq<char>>::empty());
        assert(out@ =~= debug_items(sv.take(0)));
    }
    while i < v.len()
        invariant
            0 <= i <= v.len(),
            sv == strings_view(v@),
            out@ == debug_items(sv.take(i as int)),
        decreases v.len() - i,
    {
        let q = debug_quoted(&v[i]);
        proof {
            assert(sv.take(i + 1).drop_last() =~= sv.take(i as int));
            assert(sv.take(i + 1).last() == v@[i as int]@);
        }
        if i > 0 {
            out.append(", ");
        }
        out.append(q.as_str());
        proof {
            if i == 0 {
                assert(out@ =~= str_debug(sv.take(1)[0]));
            } else {
                assert(out@ =~= debug_items(sv.take(i as int)) + ", "@ + str_debug(sv.take(i + 1).last()));
            }
        }
        i = i + 1;
    }
    proof {
        assert(sv.take(i as int) =~= sv);
    }
    let mut r = String::from_str("[");
    r.append(out.as_str());
    r.append("]");
    r
}

impl SimError {
    /// The error's message.
    pub fn to_string(&self) -> (r: String)
        ensures
            r@ == error_text(self.view()),
    {
        match self {
            SimError::ManifestViolation { instrument_id, missing_required, .. } => {
                let mut s = String::from_str("manifest violation for ");
                s.append(instrument_id.as_str());
                s.append(": missing required payloads: ");
                let l = debug_list(missing_required);
                s.append(l.as_str());
                s
            },
            SimError::DataSufficiencyError { instrument_id, .. } => {
                let mut s = String::from_str("data sufficiency error for ");
                s.append(instrument_id.as_str());
                s
            },
            SimError::PortMissing(m) => {
                let mut s = String::from_str("port missing: ");
                s.append(m.as_str());
                s
            },
            SimError::ValidationError(m) => {
                let mut s = String::from_str("validation error: ");
                s.append(m.as_str());
                s
            },
            SimError::LookAheadViolation { ts, feature_ts } => {
                let mut s = String::from_str("look-ahead violation at ts=");
                let a = i64_to_string(*ts);
                s.append(a.as_str());
                s.append(": feature ts_event=");
                let b = i64_to_string(*feature_ts);
                s.append(b.as_str());
                s.append(" > current_ts");
                s
            },
            SimError::EngineNotImplemented(m) => {
                let mut s = String::from_str("engine not implemented for price_formation: ");
                s.append(m.as_str());
                s
            },
        }
    }
}

} // verus!
