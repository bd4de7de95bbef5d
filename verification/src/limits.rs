//! The limits of a run: a sparse set of named bounds. A bound that is absent
//! leaves its dimension unlimited.

use vstd::prelude::*;
use crate::assoc::assoc_get;
use crate::encode::atom_spec;
use crate::term::{entries_view, map_get, str_equal, Term, TermView};

verus! {

/// A duration in seconds, as the host wrote it: a float, by its bits, or a
/// whole number.
#[derive(Clone, Copy, Debug, PartialEq, Eq, Structural)]
pub enum Seconds {
    Float(u64),
    Whole(i64),
}

/// The limits of a run. `None` leaves a dimension unlimited.
#[derive(Clone, Copy, Debug, PartialEq, Eq, Structural)]
pub struct ResourceLimits {
    /// The most allocations that the run may make.
    pub max_allocations: Option<u64>,
    /// The longest time that the run may take.
    pub max_duration_secs: Option<Seconds>,
    /// The most memory, in bytes, that the run may hold.
    pub max_memory: Option<u64>,
    /// The number of allocations between two garbage collections.
    pub gc_interval: Option<u64>,
    /// The deepest recursion that the run may reach.
    pub max_recursion_depth: Option<u64>,
}

impl ResourceLimits {
    /// The limits that limit nothing.
    pub open spec fn unlimited() -> ResourceLimits {
        ResourceLimits {
            max_allocations: None,
            max_duration_secs: None,
            max_memory: None,
            gc_interval: None,
            max_recursion_depth: None,
        }
    }

    /// Whether no dimension is limited.
    pub open spec fn is_unlimited(self) -> bool {
        self == ResourceLimits::unlimited()
    }

    /// The limits that limit nothing.
    pub fn new() -> (r: ResourceLimits)
        ensures
            r == ResourceLimits::unlimited(),
    {
        ResourceLimits {
            max_allocations: None,
            max_duration_secs: None,
            max_memory: None,
            gc_interval: None,
            max_recursion_depth: None,
        }
    }

    /// The same limits with the number of allocations bounded by `limit`.
    pub fn max_allocations(self, limit: u64) -> (r: ResourceLimits)
        ensures
            r == (ResourceLimits { max_allocations: Some(limit), ..self }),
    {
        ResourceLimits { max_allocations: Some(limit), ..self }
    }

    /// The same limits with the duration bounded by `limit`.
    pub fn max_duration(self, limit: Seconds) -> (r: ResourceLimits)
        ensures
            r == (ResourceLimits { max_duration_secs: Some(limit), ..self }),
    {
        ResourceLimits { max_duration_secs: Some(limit), ..self }
    }

    /// The same limits with the memory bounded by `limit` bytes.
    pub fn max_memory(self, limit: u64) -> (r: ResourceLimits)
        ensures
            r == (ResourceLimits { max_memory: Some(limit), ..self }),
    {
        ResourceLimits { max_memory: Some(limit), ..self }
    }

    /// The same limits with a garbage collection every `interval`
    /// allocations.
    pub fn gc_interval(self, interval: u64) -> (r: ResourceLimits)
        ensures
            r == (ResourceLimits { gc_interval: Some(interval), ..self }),
    {
        ResourceLimits { gc_interval: Some(interval), ..self }
    }

    /// The same limits with the recursion depth bounded by `limit`, or
    /// unbounded.
    pub fn max_recursion_depth(self, limit: Option<u64>) -> (r: ResourceLimits)
        ensures
            r == (ResourceLimits { max_recursion_depth: limit, ..self }),
    {
        ResourceLimits { max_recursion_depth: limit, ..self }
    }
}

/// The count that a term holds: a host integer from `0` to `2^64 - 1`.
pub open spec fn count_of_term(t: Option<TermView>) -> Option<u64> {
    match t {
        Some(TermView::Integer(n)) => if 0 <= n <= u64::MAX {
            Some(n as u64)
        } else {
            None
        },
        _ => None,
    }
}

/// The duration that a term holds: a float, or a host integer that fits 64
/// bits.
pub open spec fn seconds_of_term(t: Option<TermView>) -> Option<Seconds> {
    match t {
        Some(TermView::Float(bits)) => Some(Seconds::Float(bits)),
        Some(TermView::Integer(n)) => if i64::MIN <= n <= i64::MAX {
            Some(Seconds::Whole(n as i64))
        } else {
            None
        },
        _ => None,
    }
}

/// The limits that the entries of a mapping configure. A key that is absent,
/// or whose value is of another kind, leaves its dimension unlimited.
pub open spec fn limits_of_entries(entries: Seq<(TermView, TermView)>) -> ResourceLimits {
    ResourceLimits {
        max_allocations: count_of_term(assoc_get(entries, atom_spec("max_allocations"))),
        max_duration_secs: seconds_of_term(assoc_get(entries, atom_spec("max_duration_secs"))),
        max_memory: count_of_term(assoc_get(entries, atom_spec("max_memory"))),
        gc_interval: count_of_term(assoc_get(entries, atom_spec("gc_interval"))),
        max_recursion_depth: count_of_term(assoc_get(entries, atom_spec("max_recursion_depth"))),
    }
}

/// The limits that a term configures: the atom `nil` configures none, a
/// mapping configures those of its entries, any other term is rejected.
pub open spec fn decode_limits_spec(t: TermView) -> Option<ResourceLimits> {
    match t {
        TermView::Atom(name) => if name == "nil"@ {
            Some(ResourceLimits::unlimited())
        } else {
            None
        },
        TermView::Mapping(entries) => Some(limits_of_entries(entries)),
        _ => None,
    }
}

/// The count that a term holds.
fn term_count(t: Option<&Term>) -> (r: Option<u64>)
    ensures
        r == count_of_term(
            match t {
                Some(t) => Some(t@),
                None => None,
            },
        ),
{
    match t {
        Some(Term::Integer(i)) => if *i >= 0 {
            Some(*i as u64)
        } else {
            None
        },
        Some(Term::BigInteger(b)) => b.to_u64(),
        _ => None,
    }
}

/// The duration that a term holds.
fn term_seconds(t: Option<&Term>) -> (r: Option<Seconds>)
    ensures
        r == seconds_of_term(
            match t {
                Some(t) => Some(t@),
                None => None,
            },
        ),
{
    match t {
        Some(Term::Float(bits)) => Some(Seconds::Float(*bits)),
        Some(Term::Integer(i)) => Some(Seconds::Whole(*i)),
        Some(Term::BigInteger(b)) => match b.to_i64() {
            Some(i) => Some(Seconds::Whole(i)),
            None => None,
        },
        _ => None,
    }
}

/// The term under the given atom key.
fn limit_entry<'a>(entries: &'a Vec<(Term, Term)>, key: &str) -> (r: Option<&'a Term>)
    ensures
        (match r {
            Some(t) => Some(t@),
            None => None,
        }) == assoc_get(entries_view(entries@), atom_spec(key)),
{
    map_get(entries, &Term::atom(key))
}

/// The error of `decode_resource_limits`: the term is neither `nil` nor a
/// mapping.
#[derive(Clone, Copy, Debug, PartialEq, Eq, Structural)]
pub struct LimitsError;

/// Reads the limits of a run from the term that configures them.
pub fn decode_resource_limits(term: &Term) -> (r: Result<ResourceLimits, LimitsError>)
    ensures
        match r {
            Ok(limits) => decode_limits_spec(term@) == Some(limits),
            Err(_) => decode_limits_spec(term@) is None,
        },
{
    match term {
        Term::Atom(name) => if str_equal(name.as_str(), "nil") {
            Ok(ResourceLimits::new())
        } else {
            Err(LimitsError)
        },
        Term::Mapping(entries) => {
            let mut limits = ResourceLimits::new();
            match term_count(limit_entry(entries, "max_allocations")) {
                Some(n) => {
                    limits = limits.max_allocations(n);
                },
                None => {},
            }
            match term_seconds(limit_entry(entries, "max_duration_secs")) {
                Some(secs) => {
                    limits = limits.max_duration(secs);
                },
                None => {},
            }
            match term_count(limit_entry(entries, "max_memory")) {
                Some(n) => {
                    limits = limits.max_memory(n);
                },
                None => {},
            }
            match term_count(limit_entry(entries, "gc_interval")) {
                Some(n) => {
                    limits = limits.gc_interval(n);
                },
                None => {},
            }
            match term_count(limit_entry(entries, "max_recursion_depth")) {
                Some(n) => {
                    limits = limits.max_recursion_depth(Some(n));
                },
                None => {},
            }
            Ok(limits)
        },
        _ => Err(LimitsError),
    }
}

/// Whether the mapping has none of the keys that configure a limit.
pub open spec fn configures_nothing(entries: Seq<(TermView, TermView)>) -> bool {
    &&& assoc_get(entries, atom_spec("max_allocations")) is None
    &&& assoc_get(entries, atom_spec("max_duration_secs")) is None
    &&& assoc_get(entries, atom_spec("max_memory")) is None
    &&& assoc_get(entries, atom_spec("gc_interval")) is None
    &&& assoc_get(entries, atom_spec("max_recursion_depth")) is None
}

/// A configuration with no field set is the same as no configuration: the
/// atom `nil`, the empty mapping and every mapping without a limit key all
/// give the limits that limit nothing.
pub proof fn lemma_absent_limits_are_unlimited(entries: Seq<(TermView, TermView)>)
    requires
        configures_nothing(entries),
    ensures
        decode_limits_spec(TermView::Mapping(entries)) == Some(ResourceLimits::unlimited()),
        decode_limits_spec(TermView::Mapping(Seq::empty())) == Some(ResourceLimits::unlimited()),
        decode_limits_spec(atom_spec("nil")) == Some(ResourceLimits::unlimited()),
        decode_limits_spec(TermView::Mapping(entries)) == decode_limits_spec(atom_spec("nil")),
{
    let empty = Seq::<(TermView, TermView)>::empty();
    assert(configures_nothing(empty));
}

} // verus!
